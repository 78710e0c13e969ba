//! Which sessions are shared and listed, told by the values of their rows.

use vstd::prelude::*;

use crate::json::Tree;
use crate::path::Place;
use crate::text::{lower, Class};
use crate::text_laws::{all_in, both_edges_are_taken};
use super::laws::{lemma_column_names, sharing_changes_owners_alone};
use super::list::{
    has_body, later, listable, listing, offered, placed, session_document, session_in,
    sessions_document, shown, Listed, SessionEntry,
};
use super::copy::has_source_columns;
use super::share::{
    alive, changed, count_alive, count_kept_back, has_share_columns, kept_back, sharable,
    share_report, shared, shared_row, sharing, Sharing, Store,
};
use super::store::{claw, shown_title, Bodies};
use super::table::{
    answer, cell, column, equals, exact_column, index_from, plain, visible, Cell, Grid, Line, Row,
    SqlValue, Table, Told,
};

verus! {

/// A column is found by its name in upper or lower case, the first of several; a column that
/// must be named exactly is not found under another spelling.
pub proof fn column_is_found_by_its_name(names: Seq<Seq<char>>, name: Seq<char>)
    ensures
        match column(names, name) {
            Some(k) => 0 <= k < names.len() && lower(names[k]) == lower(name) && forall|j: int|
                0 <= j < k ==> lower(#[trigger] names[j]) != lower(name),
            None => forall|j: int| 0 <= j < names.len() ==> lower(#[trigger] names[j]) != lower(name),
        },
        exact_column(names, name) is Some <==> names.contains(name),
        exact_column(names, name) is Some ==> exact_column(names, name) == column(names, name),
{
    lemma_index(names, name, 0);
    if names.contains(name) {
        let j = choose|j: int| 0 <= j < names.len() && names[j] == name;
        assert(lower(names[j]) == lower(name));
    }
}

/// The first position of a name.
proof fn lemma_index(names: Seq<Seq<char>>, name: Seq<char>, i: int)
    requires
        0 <= i,
    ensures
        match index_from(names, name, i) {
            Some(k) => i <= k < names.len() && lower(names[k]) == lower(name) && forall|j: int|
                i <= j < k ==> lower(#[trigger] names[j]) != lower(name),
            None => forall|j: int| i <= j < names.len() ==> lower(#[trigger] names[j]) != lower(name),
        },
    decreases names.len() - i,
{
    if i < names.len() && lower(names[i]) != lower(name) {
        lemma_index(names, name, i + 1);
    }
}

/// A value of which the database tells something equals a text as it says, and the last that
/// it says counts; one of which it tells nothing equals the text that it is.
pub proof fn database_decides_what_is_equal(
    row: Line,
    at: int,
    text: Seq<char>,
    told: Told,
)
    ensures
        equals(plain(row.cells), Some(at), text) <==> 0 <= at < row.cells.len() && row.cells[at]
            == Cell::Text(text),
        equals(
            Line { cells: row.cells, told: row.told.push(told) },
            Some(at),
            text,
        ) == (if told.column == at && told.text == text {
            told.equal
        } else {
            equals(row, Some(at), text)
        }),
        !equals(row, None, text),
{
    assert(row.told.push(told).drop_last() =~= row.told);
    assert(answer(row.told.push(told), at, text) == if told.column == at && told.text == text {
        Some(told.equal)
    } else {
        answer(row.told, at, text)
    });
}

/// An account sees its own sessions and those without an owner, and no others.
pub proof fn own_and_shared_sessions_are_seen(cells: Seq<Cell>, at: int, uid: Seq<char>)
    requires
        0 <= at < cells.len(),
    ensures
        visible(plain(cells), Some(at), uid) <==> cells[at] == Cell::Text(uid) || cells[at]
            == Cell::Text(Seq::empty()) || cells[at] == Cell::Null,
{
    reveal_strlit("");
    assert(""@ =~= Seq::<char>::empty());
    database_decides_what_is_equal(
        plain(cells),
        at,
        uid,
        (Told { column: 0, text: uid, equal: true }),
    );
    database_decides_what_is_equal(
        plain(cells),
        at,
        ""@,
        (Told { column: 0, text: uid, equal: true }),
    );
}

/// A session is shared just if it is not deleted, has an owner, and has a workspace that is
/// not bound to a channel; it is kept back if its workspace is. One without a workspace is
/// neither.
pub proof fn sessions_are_shared_by_their_values(
    names: Seq<Seq<char>>,
    cells: Seq<Cell>,
    deleted: int,
    owner: int,
    cwd: int,
)
    requires
        column(names, "deleted_at"@) == Some(deleted),
        column(names, "user_id"@) == Some(owner),
        column(names, "cwd"@) == Some(cwd),
        0 <= deleted < cells.len(),
        0 <= owner < cells.len(),
        0 <= cwd < cells.len(),
    ensures
        ({
            let row = plain(cells);
            let at_stake = cells[deleted] == Cell::Null && cells[owner] != Cell::Null
                && cells[owner] != Cell::Text(Seq::empty());
            &&& alive(names, row) <==> cells[deleted] == Cell::Null
            &&& match cells[cwd] {
                Cell::Null => !sharable(names, row) && !kept_back(names, row),
                Cell::Text(s) => (sharable(names, row) <==> at_stake && !claw(s)) && (kept_back(
                    names,
                    row,
                ) <==> at_stake && claw(s)),
                Cell::Integer(_) => (sharable(names, row) <==> at_stake) && !kept_back(names, row),
                Cell::Real(_) => (sharable(names, row) <==> at_stake) && !kept_back(names, row),
                Cell::Blob(b) => (sharable(names, row) <==> at_stake && !claw(
                    crate::text::utf8_lossy(b),
                )) && (kept_back(names, row) <==> at_stake && claw(crate::text::utf8_lossy(b))),
            }
        }),
{
    reveal_strlit("");
    assert(""@ =~= Seq::<char>::empty());
    database_decides_what_is_equal(
        plain(cells),
        owner,
        ""@,
        (Told { column: 0, text: ""@, equal: true }),
    );
}

/// The rows that are changed are just those that are shared, each once and in order, and
/// the counts grow row by row: by one for each that is not deleted, and by one for each that
/// is kept back.
pub proof fn rows_are_counted_one_by_one(g: Grid, n: nat, i: int, j: int)
    requires
        n < g.rows.len(),
    ensures
        changed(g, n).contains(i) <==> 0 <= i < n && sharable(g.columns, g.rows[i]),
        0 <= i < j < changed(g, n).len() ==> changed(g, n)[i] < changed(g, n)[j],
        count_alive(g, 0) == 0,
        count_kept_back(g, 0) == 0,
        count_alive(g, n + 1) == count_alive(g, n) + if cell(
            g.rows[n as int],
            column(g.columns, "deleted_at"@),
        ) == Cell::Null {
            1nat
        } else {
            0nat
        },
        count_kept_back(g, n + 1) == count_kept_back(g, n) + if kept_back(
            g.columns,
            g.rows[n as int],
        ) {
            1nat
        } else {
            0nat
        },
        changed(g, n + 1).len() == changed(g, n).len() + if sharable(g.columns, g.rows[n as int]) {
            1nat
        } else {
            0nat
        },
    decreases n,
{
    lemma_changed(g, n, i);
    lemma_changed_order(g, n, i, j);
}

/// What is changed are just the rows that are shared.
proof fn lemma_changed(g: Grid, n: nat, i: int)
    ensures
        changed(g, n).contains(i) <==> 0 <= i < n && sharable(g.columns, g.rows[i]),
    decreases n,
{
    if n > 0 {
        let before = changed(g, (n - 1) as nat);
        let all = changed(g, n);
        lemma_changed(g, (n - 1) as nat, i);
        if before.contains(i) {
            let k = choose|k: int| 0 <= k < before.len() && before[k] == i;
            assert(all[k] == i);
        }
        if sharable(g.columns, g.rows[n - 1]) {
            assert(all[before.len() as int] == n - 1);
            if all.contains(i) {
                let k = choose|k: int| 0 <= k < all.len() && all[k] == i;
                if k < before.len() {
                    assert(before[k] == i);
                }
            }
        }
    }
}

/// What is changed is in order.
proof fn lemma_changed_order(g: Grid, n: nat, i: int, j: int)
    ensures
        0 <= i < j < changed(g, n).len() ==> changed(g, n)[i] < changed(g, n)[j],
    decreases n,
{
    if n > 0 && 0 <= i < j < changed(g, n).len() {
        let before = changed(g, (n - 1) as nat);
        let all = changed(g, n);
        lemma_changed_order(g, (n - 1) as nat, i, j);
        if j < before.len() {
            assert(all[i] == before[i] && all[j] == before[j]);
        } else {
            assert(all[i] == before[i]);
            assert(before.contains(before[i]));
            lemma_changed(g, (n - 1) as nat, before[i]);
        }
    }
}

/// The names of members of a report of sharing differ from each other.
proof fn lemma_share_names()
    ensures
        "total"@ != "shared"@,
        "total"@ != "skippedClaw"@,
        "shared"@ != "skippedClaw"@,
{
    reveal_strlit("total");
    reveal_strlit("shared");
    reveal_strlit("skippedClaw");
    assert("total"@.len() == 5);
    assert("shared"@.len() == 6);
    assert("skippedClaw"@.len() == 11);
}

/// The report of sharing tells how many sessions are not deleted, how many were changed and
/// how many were kept back, each under its name.
pub proof fn report_tells_the_counts(g: Grid)
    ensures
        share_report(g).get("total"@) == Some(Tree::Int(count_alive(g, g.rows.len()) as int)),
        share_report(g).get("shared"@) == Some(Tree::Int(changed(g, g.rows.len()).len() as int)),
        share_report(g).get("skippedClaw"@) == Some(
            Tree::Int(count_kept_back(g, g.rows.len()) as int),
        ),
{
    lemma_share_names();
}

/// What is changed and what is kept back are different sessions that are not deleted, so
/// there are no more of them than of these.
pub proof fn changed_and_kept_back_are_apart(g: Grid, n: nat)
    requires
        n <= g.rows.len(),
    ensures
        changed(g, n).len() + count_kept_back(g, n) <= count_alive(g, n),
        count_alive(g, n) <= n,
    decreases n,
{
    if n > 0 {
        changed_and_kept_back_are_apart(g, (n - 1) as nat);
    }
}

/// Sharing again reports the same sessions in total and kept back, and none changed.
pub proof fn sharing_again_reports_nothing_changed(g: Grid, n: nat)
    requires
        n <= g.rows.len(),
    ensures
        count_alive(shared(g), n) == count_alive(g, n),
        count_kept_back(shared(g), n) == count_kept_back(g, n),
        changed(shared(g), n).len() == 0,
    decreases n,
{
    if n > 0 {
        sharing_again_reports_nothing_changed(g, (n - 1) as nat);
        lemma_column_names();
        let row = g.rows[n - 1];
        assert(shared(g).rows[n - 1] == shared_row(g.columns, row));
        sharing_changes_owners_alone(g.columns, row, "deleted_at"@, ""@);
        sharing_changes_owners_alone(g.columns, row, "cwd"@, ""@);
    }
}

/// Only a table that is there is changed, and then there is a report; otherwise all stays as
/// it is, and a message tells why.
pub proof fn sharing_needs_a_table(before: Store, after: Store, r: Result<Sharing, String>)
    requires
        sharing(before, after, r),
    ensures
        before is Open <==> r is Ok,
        !(before is Open) ==> after == before,
        before matches Store::Open(t) ==> (after matches Store::Open(u) && u@.columns == t@.columns
            && u@.rows.len() == t@.rows.len() && forall|i: int|
            0 <= i < t@.rows.len() ==> #[trigger] u@.rows[i] == shared_row(
                t@.columns,
                t@.rows[i],
            )),
        before matches Store::Refused(said) ==> (r matches Err(e) && e@ == said@),
        before matches Store::Missing(shown) ==> (r matches Err(e) && e@ == "找不到 "@ + shown@),
{
}

/// What is listed of a row are its values: the identifier, the workspace and the time as they
/// are, empty where there are none, and a playground if it is marked so with a number that is
/// not zero. A row with a value of another kind is not listed.
pub proof fn session_has_the_values_of_its_row(names: Seq<Seq<char>>, row: Line)
    ensures
        ({
            let id = cell(row, column(names, "id"@));
            let cwd = cell(row, column(names, "cwd"@));
            let title = cell(row, column(names, "title"@));
            let custom = cell(row, exact_column(names, "custom_title"@));
            let updated = cell(row, column(names, "updated_at"@));
            let playground = cell(row, exact_column(names, "is_playground"@));
            &&& session_in(names, row) is Some <==> (id is Null || id is Text) && (cwd is Null
                || cwd is Text) && (title is Null || title is Text) && (custom is Null
                || custom is Text) && (updated is Null || updated is Integer) && (playground is Null
                || playground is Integer)
            &&& session_in(names, row) matches Some(s) ==> {
                &&& id matches Cell::Text(x) ==> s.id == x
                &&& id is Null ==> s.id.len() == 0
                &&& cwd matches Cell::Text(x) ==> s.cwd == x
                &&& cwd is Null ==> s.cwd.len() == 0
                &&& updated matches Cell::Integer(t) ==> s.updated == Some(t)
                &&& updated is Null ==> s.updated is None
                &&& playground matches Cell::Integer(p) ==> (s.playground <==> p != 0)
                &&& playground is Null ==> !s.playground
                &&& s.title == shown_title(
                    match title {
                        Cell::Text(x) => Some(x),
                        _ => None,
                    },
                    match custom {
                        Cell::Text(x) => Some(x),
                        _ => None,
                    },
                )
            }
        }),
{
}

/// A session is shown under the title that the user gave, without white space around it, or
/// else under its own, or else as one without a title.
pub proof fn title_of_the_user_counts_first(
    w: Seq<char>,
    x: Seq<char>,
    v: Seq<char>,
    other: Option<Seq<char>>,
)
    requires
        all_in(w, Class::White),
        all_in(v, Class::White),
        x.len() > 0,
        !Class::White.holds(x[0]),
        !Class::White.holds(x.last()),
    ensures
        shown_title(other, Some(w + x + v)) == x,
        shown_title(Some(w + x + v), None) == x,
        shown_title(Some(w + x + v), Some(w)) == x,
        shown_title(Some(w), Some(v)) == "(无标题)"@,
        shown_title(None, None) == "(无标题)"@,
{
    let none = Seq::<char>::empty();
    both_edges_are_taken(w, x, v, Class::White);
    both_edges_are_taken(w, none, none, Class::White);
    both_edges_are_taken(v, none, none, Class::White);
    assert(w + none + none =~= w);
    assert(v + none + none =~= v);
}

/// An account is shown a session just if it is not deleted, the account sees it, its values
/// are of the right kinds, and its workspace is not bound to a channel; and it is shown it
/// as it is.
pub proof fn sessions_are_offered_by_their_values(
    names: Seq<Seq<char>>,
    row: Line,
    uid: Seq<char>,
    s: Listed,
)
    ensures
        offered(names, row, uid) == Some(s) <==> cell(row, column(names, "deleted_at"@))
            == Cell::Null && visible(row, column(names, "user_id"@), uid) && session_in(names, row)
            == Some(s) && !claw(s.cwd),
{
}

/// A session is placed behind all that were not changed before it, in front of all that
/// were; the others keep their order. So of two that were changed at the same time the one
/// that is read first comes first, and one without a time comes last.
pub proof fn session_is_placed_by_its_time(list: Seq<Listed>, s: Listed) -> (p: int)
    ensures
        0 <= p <= list.len(),
        placed(list, s) == list.take(p) + seq![s] + list.skip(p),
        forall|i: int|
            p <= i < list.len() ==> match (#[trigger] list[i]).updated {
                Some(t) => s.updated matches Some(u) && u > t,
                None => s.updated is Some,
            },
        p > 0 ==> match list[p - 1].updated {
            Some(t) => s.updated matches Some(u) ==> u <= t,
            None => s.updated is None,
        },
    decreases list.len(),
{
    if list.len() > 0 && later(s.updated, list.last().updated) {
        let before = list.drop_last();
        let p = session_is_placed_by_its_time(before, s);
        assert(before.take(p) =~= list.take(p));
        assert(list.skip(p) =~= before.skip(p).push(list.last()));
        assert(placed(list, s) =~= list.take(p) + seq![s] + list.skip(p));
        assert forall|i: int| p <= i < list.len() implies match (#[trigger] list[i]).updated {
            Some(t) => s.updated matches Some(u) && u > t,
            None => s.updated is Some,
        } by {
            if i < before.len() {
                assert(before[i] == list[i]);
            }
        }
        if p > 0 {
            assert(before[p - 1] == list[p - 1]);
        }
        p
    } else {
        let p = list.len() as int;
        assert(placed(list, s) =~= list.take(p) + seq![s] + list.skip(p));
        p
    }
}

/// Rows are shown one by one: each that is offered is placed once, and no other.
pub proof fn rows_are_shown_one_by_one(
    names: Seq<Seq<char>>,
    rows: Seq<Line>,
    row: Line,
    uid: Seq<char>,
)
    ensures
        match offered(names, row, uid) {
            Some(s) => shown(names, rows.push(row), uid) == placed(shown(names, rows, uid), s)
                && shown(names, rows.push(row), uid).len() == shown(names, rows, uid).len() + 1,
            None => shown(names, rows.push(row), uid) == shown(names, rows, uid),
        },
        shown(names, Seq::empty(), uid).len() == 0,
{
    assert(rows.push(row).drop_last() =~= rows);
    if let Some(s) = offered(names, row, uid) {
        let p = session_is_placed_by_its_time(shown(names, rows, uid), s);
    }
}

/// The names of members of a listed session differ from each other.
proof fn lemma_session_names()
    ensures
        "id"@ != "title"@,
        "id"@ != "cwd"@,
        "id"@ != "updatedAt"@,
        "id"@ != "hasHistory"@,
        "id"@ != "isPlayground"@,
        "title"@ != "cwd"@,
        "title"@ != "updatedAt"@,
        "title"@ != "hasHistory"@,
        "title"@ != "isPlayground"@,
        "cwd"@ != "updatedAt"@,
        "cwd"@ != "hasHistory"@,
        "cwd"@ != "isPlayground"@,
        "updatedAt"@ != "hasHistory"@,
        "updatedAt"@ != "isPlayground"@,
        "hasHistory"@ != "isPlayground"@,
{
    reveal_strlit("id");
    reveal_strlit("title");
    reveal_strlit("cwd");
    reveal_strlit("updatedAt");
    reveal_strlit("hasHistory");
    reveal_strlit("isPlayground");
    assert("id"@.len() == 2);
    assert("title"@.len() == 5);
    assert("cwd"@.len() == 3);
    assert("updatedAt"@.len() == 9);
    assert("hasHistory"@.len() == 10);
    assert("isPlayground"@.len() == 12);
}

/// A listed session as a document has each of its values under its name; one without a time
/// has the time zero.
pub proof fn document_tells_the_session(s: Listed, history: bool)
    ensures
        ({
            let d = session_document(s, history);
            &&& d.get("id"@) == Some(Tree::Text(s.id))
            &&& d.get("title"@) == Some(Tree::Text(s.title))
            &&& d.get("cwd"@) == Some(Tree::Text(s.cwd))
            &&& s.updated matches Some(t) ==> d.get("updatedAt"@) == Some(Tree::Int(t))
            &&& s.updated is None ==> d.get("updatedAt"@) == Some(Tree::Int(0))
            &&& d.get("hasHistory"@) == Some(Tree::Bool(history))
            &&& d.get("isPlayground"@) == Some(Tree::Bool(s.playground))
        }),
{
    lemma_session_names();
}

/// Every listed session is told, in order, with whether its body is there.
pub proof fn document_tells_every_session(
    list: Seq<Listed>,
    data: Place,
    bodies: Option<Bodies>,
    i: int,
)
    requires
        0 <= i < list.len(),
    ensures
        sessions_document(list, data, bodies) matches Tree::List(a) && a.len() == list.len() && a[i]
            == session_document(list[i], has_body(data, bodies, list[i].id)),
{
}

/// Whether a list of names holds a name, in upper or lower case.
pub open spec fn has_name(names: Seq<Seq<char>>, name: Seq<char>) -> bool {
    exists|k: int| 0 <= k < names.len() && lower(#[trigger] names[k]) == lower(name)
}

/// A column is found just if its name is there.
proof fn lemma_has_name(names: Seq<Seq<char>>, name: Seq<char>)
    ensures
        column(names, name) is Some <==> has_name(names, name),
{
    column_is_found_by_its_name(names, name);
}

/// Sessions are listed, shared and copied from any table that has the columns that are
/// needed for it, whatever other columns it has or lacks; one that lacks a column that is
/// needed lists nothing.
pub proof fn tables_need_few_columns(g: Grid, uid: Seq<char>)
    ensures
        listable(g.columns) <==> has_name(g.columns, "id"@) && has_name(g.columns, "cwd"@)
            && has_name(g.columns, "title"@) && has_name(g.columns, "updated_at"@) && has_name(
            g.columns,
            "deleted_at"@,
        ) && has_name(g.columns, "user_id"@),
        has_share_columns(g.columns) <==> has_name(g.columns, "user_id"@) && has_name(
            g.columns,
            "deleted_at"@,
        ) && has_name(g.columns, "cwd"@),
        has_source_columns(g.columns) <==> has_name(g.columns, "id"@) && has_name(
            g.columns,
            "user_id"@,
        ),
        listable(g.columns) ==> listing(g, uid) == shown(g.columns, g.rows, uid),
        !listable(g.columns) ==> listing(g, uid).len() == 0,
{
    lemma_has_name(g.columns, "id"@);
    lemma_has_name(g.columns, "cwd"@);
    lemma_has_name(g.columns, "title"@);
    lemma_has_name(g.columns, "updated_at"@);
    lemma_has_name(g.columns, "deleted_at"@);
    lemma_has_name(g.columns, "user_id"@);
}

/// A table in the model has all columns and all rows, in order, and a row all its values and
/// all that the database tells of them.
pub proof fn model_holds_the_whole_table(t: Table, r: Row, i: int)
    ensures
        t@.columns.len() == t.columns@.len(),
        0 <= i < t@.columns.len() ==> t@.columns[i] == t.columns@[i]@,
        t@.rows.len() == t.rows@.len(),
        0 <= i < t@.rows.len() ==> t@.rows[i] == t.rows@[i]@,
        r@.cells.len() == r.values@.len(),
        0 <= i < r@.cells.len() ==> r@.cells[i] == (match r.values@[i] {
            SqlValue::Null => Cell::Null,
            SqlValue::Integer(n) => Cell::Integer(n as int),
            SqlValue::Real(b) => Cell::Real(b),
            SqlValue::Text(s) => Cell::Text(s@),
            SqlValue::Blob(b) => Cell::Blob(b@),
        }),
        r@.told.len() == r.told@.len(),
        0 <= i < r@.told.len() ==> r@.told[i] == (Told {
            column: r.told@[i].column as int,
            text: r.told@[i].text@,
            equal: r.told@[i].equal,
        }),
{
}

/// A listed session in the model is the entry that callers get.
pub proof fn model_holds_the_entry(e: SessionEntry)
    ensures
        e@.id == e.id@,
        e@.title == e.title@,
        e@.cwd == e.cwd@,
        e.updated_at matches Some(t) ==> e@.updated == Some(t as int),
        e.updated_at is None ==> e@.updated is None,
        e@.playground == e.is_playground,
{
}

} // verus!
