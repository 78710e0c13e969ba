//! What holds of listing, sharing and copying sessions together.

use vstd::prelude::*;

use crate::text::lower;
use super::copy::{copied_cell, copied_row};
use super::list::{later, listable, listing, offered, placed, session_in, shown, Listed};
use super::share::{alive, bound, changed, sharable, shared, shared_row};
use super::table::{
    alike, cell, column, equals, index_from, lemma_told_elsewhere, plain, visible, Cell, Grid, Line,
};

verus! {

/// Whether sessions are in order, the latest first.
pub open spec fn latest_first(list: Seq<Listed>) -> bool {
    forall|i: int, j: int|
        #![trigger list[i], list[j]]
        0 <= i < j < list.len() ==> !later(list[j].updated, list[i].updated)
}

/// Placing a session keeps the order, and adds that session and nothing else.
proof fn lemma_placed(list: Seq<Listed>, s: Listed)
    requires
        latest_first(list),
    ensures
        latest_first(placed(list, s)),
        placed(list, s).len() == list.len() + 1,
        forall|x: Listed| #[trigger] placed(list, s).contains(x) <==> x == s || list.contains(x),
    decreases list.len(),
{
    let r = placed(list, s);
    if list.len() > 0 && later(s.updated, list.last().updated) {
        let before = list.drop_last();
        let p = placed(before, s);
        assert(latest_first(before)) by {
            assert forall|i: int, j: int|
                #![trigger before[i], before[j]]
                0 <= i < j < before.len() implies !later(before[j].updated, before[i].updated) by {
                assert(before[i] == list[i] && before[j] == list[j]);
            }
        }
        lemma_placed(before, s);
        assert forall|i: int, j: int|
            #![trigger r[i], r[j]]
            0 <= i < j < r.len() implies !later(r[j].updated, r[i].updated) by {
            if j < p.len() {
                assert(r[i] == p[i] && r[j] == p[j]);
            } else {
                assert(r[j] == list.last());
                assert(r[i] == p[i]);
                assert(p.contains(p[i]));
                if p[i] != s {
                    let k = choose|k: int| 0 <= k < before.len() && before[k] == p[i];
                    assert(list[k] == p[i]);
                    assert(list[list.len() - 1] == list.last());
                }
            }
        }
        assert forall|x: Listed| #[trigger] r.contains(x) <==> x == s || list.contains(x) by {
            if r.contains(x) {
                let k = choose|k: int| 0 <= k < r.len() && r[k] == x;
                if k < p.len() {
                    assert(p[k] == x);
                    assert(p.contains(x));
                    if x != s {
                        let m = choose|m: int| 0 <= m < before.len() && before[m] == x;
                        assert(list[m] == x);
                    }
                } else {
                    assert(list[list.len() - 1] == x);
                }
            }
            if x == s || list.contains(x) {
                if x == s || before.contains(x) {
                    assert(p.contains(x));
                    let k = choose|k: int| 0 <= k < p.len() && p[k] == x;
                    assert(r[k] == x);
                } else {
                    let m = choose|m: int| 0 <= m < list.len() && list[m] == x;
                    if m < before.len() {
                        assert(before[m] == x);
                    }
                    assert(r[p.len() as int] == x);
                }
            }
        }
    } else {
        assert(r =~= list.push(s));
        assert forall|i: int, j: int|
            #![trigger r[i], r[j]]
            0 <= i < j < r.len() implies !later(r[j].updated, r[i].updated) by {
            if j < list.len() {
                assert(r[i] == list[i] && r[j] == list[j]);
            } else {
                assert(r[i] == list[i]);
                assert(list[list.len() - 1] == list.last());
                if i < list.len() - 1 {
                    assert(!later(list[list.len() - 1].updated, list[i].updated));
                }
            }
        }
        assert forall|x: Listed| #[trigger] r.contains(x) <==> x == s || list.contains(x) by {
            if list.contains(x) {
                let k = choose|k: int| 0 <= k < list.len() && list[k] == x;
                assert(r[k] == x);
            }
            if x == s {
                assert(r[list.len() as int] == x);
            }
            if r.contains(x) {
                let k = choose|k: int| 0 <= k < r.len() && r[k] == x;
                if k < list.len() {
                    assert(list[k] == x);
                }
            }
        }
    }
}

/// The sessions in rows are in order, and are those that the account is shown.
proof fn lemma_shown(names: Seq<Seq<char>>, rows: Seq<Line>, uid: Seq<char>)
    ensures
        latest_first(shown(names, rows, uid)),
        shown(names, rows, uid).len() <= rows.len(),
        forall|x: Listed| #[trigger]
            shown(names, rows, uid).contains(x) <==> exists|i: int|
                0 <= i < rows.len() && offered(names, #[trigger] rows[i], uid) == Some(x),
    decreases rows.len(),
{
    let all = shown(names, rows, uid);
    if rows.len() > 0 {
        let before = rows.drop_last();
        let b = shown(names, before, uid);
        let row = rows.last();
        lemma_shown(names, before, uid);
        if let Some(s) = offered(names, row, uid) {
            lemma_placed(b, s);
        }
        assert forall|x: Listed| #[trigger] all.contains(x) <==> exists|i: int|
            0 <= i < rows.len() && offered(names, #[trigger] rows[i], uid) == Some(x) by {
            if all.contains(x) {
                if offered(names, row, uid) == Some(x) {
                    assert(rows[rows.len() - 1] == row);
                } else {
                    assert(b.contains(x));
                    let i = choose|i: int|
                        0 <= i < before.len() && offered(names, #[trigger] before[i], uid) == Some(
                            x,
                        );
                    assert(rows[i] == before[i]);
                }
            }
            if exists|i: int|
                0 <= i < rows.len() && offered(names, #[trigger] rows[i], uid) == Some(x) {
                let i = choose|i: int|
                    0 <= i < rows.len() && offered(names, #[trigger] rows[i], uid) == Some(x);
                if i < before.len() {
                    assert(before[i] == rows[i]);
                    assert(b.contains(x));
                } else {
                    assert(rows[i] == row);
                }
            }
        }
    }
}

/// A list of sessions has the latest first, and holds just the sessions that the
/// account is shown.
pub proof fn list_holds_what_is_shown(g: Grid, uid: Seq<char>, s: Listed)
    requires
        listable(g.columns),
    ensures
        latest_first(listing(g, uid)),
        listing(g, uid).contains(s) <==> exists|i: int|
            0 <= i < g.rows.len() && offered(g.columns, #[trigger] g.rows[i], uid) == Some(s),
{
    lemma_shown(g.columns, g.rows, uid);
}

/// The position of a column.
proof fn lemma_column(names: Seq<Seq<char>>, name: Seq<char>, i: int)
    requires
        0 <= i,
    ensures
        index_from(names, name, i) matches Some(k) ==> i <= k < names.len() && alike(
            names[k],
            name,
        ),
    decreases names.len() - i,
{
    if i < names.len() && !alike(names[i], name) {
        lemma_column(names, name, i + 1);
    }
}

/// The names of the columns of sessions differ from each other in more than case.
pub(crate) proof fn lemma_column_names()
    ensures
        !alike("user_id"@, "id"@),
        !alike("user_id"@, "cwd"@),
        !alike("user_id"@, "title"@),
        !alike("user_id"@, "custom_title"@),
        !alike("user_id"@, "updated_at"@),
        !alike("user_id"@, "is_playground"@),
        !alike("user_id"@, "deleted_at"@),
        !alike("id"@, "cwd"@),
        !alike("id"@, "title"@),
        !alike("id"@, "custom_title"@),
        !alike("id"@, "updated_at"@),
        !alike("id"@, "is_playground"@),
        !alike("id"@, "deleted_at"@),
        !alike("updated_at"@, "cwd"@),
        !alike("updated_at"@, "title"@),
        !alike("updated_at"@, "custom_title"@),
        !alike("updated_at"@, "is_playground"@),
        !alike("updated_at"@, "deleted_at"@),
        !alike("created_at"@, "cwd"@),
        !alike("created_at"@, "title"@),
        !alike("created_at"@, "custom_title"@),
        !alike("created_at"@, "is_playground"@),
        !alike("created_at"@, "deleted_at"@),
        !alike("deleted_at"@, "cwd"@),
        !alike("deleted_at"@, "title"@),
        !alike("deleted_at"@, "custom_title"@),
        !alike("deleted_at"@, "is_playground"@),
{
    reveal_strlit("user_id");
    reveal_strlit("id");
    reveal_strlit("cwd");
    reveal_strlit("title");
    reveal_strlit("custom_title");
    reveal_strlit("updated_at");
    reveal_strlit("created_at");
    reveal_strlit("is_playground");
    reveal_strlit("deleted_at");
    assert(lower("user_id"@).len() == 7);
    assert(lower("id"@).len() == 2);
    assert(lower("cwd"@).len() == 3);
    assert(lower("title"@).len() == 5);
    assert(lower("custom_title"@).len() == 12);
    assert(lower("is_playground"@).len() == 13);
    assert(lower("updated_at"@).len() == 10);
    assert(lower("created_at"@).len() == 10);
    assert(lower("deleted_at"@).len() == 10);
    assert(lower("updated_at"@)[0] == 'u');
    assert(lower("created_at"@)[0] == 'c');
    assert(lower("deleted_at"@)[0] == 'd');
}

/// Sharing changes no value but the owner, which becomes empty.
pub proof fn sharing_changes_owners_alone(
    names: Seq<Seq<char>>,
    row: Line,
    name: Seq<char>,
    text: Seq<char>,
)
    ensures
        shared_row(names, row).cells.len() == row.cells.len(),
        !alike(name, "user_id"@) ==> cell(shared_row(names, row), column(names, name)) == cell(
            row,
            column(names, name),
        ),
        !alike(name, "user_id"@) ==> equals(shared_row(names, row), column(names, name), text)
            == equals(row, column(names, name), text),
        sharable(names, row) ==> cell(shared_row(names, row), column(names, "user_id"@))
            == Cell::Text(""@),
        sharable(names, row) ==> equals(shared_row(names, row), column(names, "user_id"@), ""@),
        !sharable(names, row) ==> shared_row(names, row) == row,
{
    lemma_column(names, name, 0);
    lemma_column(names, "user_id"@, 0);
    if let Some(owner) = column(names, "user_id"@) {
        lemma_told_elsewhere(row.told, owner, owner, ""@);
        if let Some(k) = column(names, name) {
            lemma_told_elsewhere(row.told, owner, k, text);
        }
    }
}

/// Sharing leaves sessions that are deleted, and those whose workspace is bound to a
/// channel, as they are.
pub proof fn deleted_and_bound_sessions_keep_their_owner(names: Seq<Seq<char>>, row: Line)
    requires
        !alive(names, row) || bound(cell(row, column(names, "cwd"@))) == Some(true),
    ensures
        shared_row(names, row) == row,
{
}

/// Sharing adds no session and removes none, and sharing again changes nothing more.
pub proof fn sharing_twice_is_sharing_once(g: Grid)
    ensures
        shared(g).rows.len() == g.rows.len(),
        shared(g).columns == g.columns,
        shared(shared(g)) == shared(g),
        changed(shared(g), g.rows.len()) == Seq::<int>::empty(),
{
    lemma_column_names();
    let names = g.columns;
    assert forall|i: int| 0 <= i < g.rows.len() implies !sharable(
        names,
        #[trigger] shared(g).rows[i],
    ) by {
        sharing_changes_owners_alone(names, g.rows[i], "deleted_at"@, ""@);
        sharing_changes_owners_alone(names, g.rows[i], "cwd"@, ""@);
    }
    assert(shared(shared(g)).rows =~= shared(g).rows);
    lemma_nothing_changed(shared(g), g.rows.len());
}

/// Where no row is shared, no row is changed.
proof fn lemma_nothing_changed(g: Grid, n: nat)
    requires
        n <= g.rows.len(),
        forall|i: int| 0 <= i < g.rows.len() ==> !sharable(g.columns, #[trigger] g.rows[i]),
    ensures
        changed(g, n) == Seq::<int>::empty(),
    decreases n,
{
    if n > 0 {
        lemma_nothing_changed(g, (n - 1) as nat);
    }
}

/// Once shared, a session that is not deleted and whose workspace is known not to be
/// bound to a channel is seen by every account.
pub proof fn shared_session_is_seen_by_all(names: Seq<Seq<char>>, row: Line, uid: Seq<char>)
    requires
        column(names, "user_id"@) is Some,
        alive(names, row),
        bound(cell(row, column(names, "cwd"@))) == Some(false),
    ensures
        visible(shared_row(names, row), column(names, "user_id"@), uid),
{
    sharing_changes_owners_alone(names, row, "user_id"@, ""@);
}

/// Once shared, a session that one account was shown before is shown to every
/// account, and the same session at that. The session must have a workspace, since
/// one without stays with its owner.
pub proof fn shared_session_is_listed_for_all(
    g: Grid,
    i: int,
    owner: Seq<char>,
    uid: Seq<char>,
    s: Listed,
)
    requires
        listable(g.columns),
        0 <= i < g.rows.len(),
        offered(g.columns, g.rows[i], owner) == Some(s),
        cell(g.rows[i], column(g.columns, "cwd"@)) != Cell::Null,
    ensures
        offered(g.columns, shared(g).rows[i], uid) == Some(s),
        listing(shared(g), uid).contains(s),
{
    let names = g.columns;
    let row = g.rows[i];
    lemma_column_names();
    sharing_changes_owners_alone(names, row, "id"@, ""@);
    sharing_changes_owners_alone(names, row, "cwd"@, ""@);
    sharing_changes_owners_alone(names, row, "title"@, ""@);
    sharing_changes_owners_alone(names, row, "custom_title"@, ""@);
    sharing_changes_owners_alone(names, row, "updated_at"@, ""@);
    sharing_changes_owners_alone(names, row, "is_playground"@, ""@);
    sharing_changes_owners_alone(names, row, "deleted_at"@, ""@);
    assert(session_in(names, shared_row(names, row)) == session_in(names, row));
    assert(bound(cell(row, column(names, "cwd"@))) == Some(false));
    shared_session_is_seen_by_all(names, row, uid);
    assert(shared(g).rows[i] == shared_row(names, row));
    list_holds_what_is_shown(shared(g), uid, s);
}

/// Once shared, a row is offered to every account alike.
proof fn lemma_offered_alike(names: Seq<Seq<char>>, row: Line, a: Seq<char>, b: Seq<char>)
    requires
        column(names, "user_id"@) is Some,
        cell(row, column(names, "cwd"@)) != Cell::Null,
    ensures
        offered(names, shared_row(names, row), a) == offered(names, shared_row(names, row), b),
{
    lemma_column_names();
    sharing_changes_owners_alone(names, row, "cwd"@, ""@);
    sharing_changes_owners_alone(names, row, "deleted_at"@, ""@);
    if alive(names, row) && bound(cell(row, column(names, "cwd"@))) == Some(false) {
        shared_session_is_seen_by_all(names, row, a);
        shared_session_is_seen_by_all(names, row, b);
    }
}

/// The rows that are offered to two accounts alike are shown to both alike.
proof fn lemma_shown_alike(names: Seq<Seq<char>>, rows: Seq<Line>, a: Seq<char>, b: Seq<char>)
    requires
        forall|i: int|
            0 <= i < rows.len() ==> offered(names, #[trigger] rows[i], a) == offered(names, rows[i], b),
    ensures
        shown(names, rows, a) == shown(names, rows, b),
    decreases rows.len(),
{
    if rows.len() > 0 {
        let before = rows.drop_last();
        assert forall|i: int| 0 <= i < before.len() implies offered(names, #[trigger] before[i], a)
            == offered(names, before[i], b) by {
            assert(before[i] == rows[i]);
        }
        lemma_shown_alike(names, before, a, b);
        assert(rows[rows.len() - 1] == rows.last());
    }
}

/// Once the sessions are shared, every account is shown the same list. Each session must
/// have a workspace, since one without stays with its owner.
pub proof fn all_accounts_are_shown_the_same(g: Grid, a: Seq<char>, b: Seq<char>)
    requires
        forall|i: int|
            0 <= i < g.rows.len() ==> cell(#[trigger] g.rows[i], column(g.columns, "cwd"@))
                != Cell::Null,
    ensures
        listing(shared(g), a) == listing(shared(g), b),
{
    if listable(g.columns) {
        let rows = shared(g).rows;
        assert forall|i: int| 0 <= i < rows.len() implies offered(g.columns, #[trigger] rows[i], a)
            == offered(g.columns, rows[i], b) by {
            assert(rows[i] == shared_row(g.columns, g.rows[i]));
            lemma_offered_alike(g.columns, g.rows[i], a, b);
        }
        lemma_shown_alike(g.columns, rows, a, b);
    }
}

/// One value of a copied row.
proof fn lemma_copied_cell(
    names: Seq<Seq<char>>,
    row: Line,
    new_cid: Seq<char>,
    target: Seq<char>,
    now_ms: int,
    name: Seq<char>,
)
    ensures
        column(names, name) is Some ==> cell(
            plain(copied_row(names, row, new_cid, target, now_ms)),
            column(names, name),
        ) == copied_cell(name, cell(row, column(names, name)), new_cid, target, now_ms),
        column(names, name) is None ==> cell(
            plain(copied_row(names, row, new_cid, target, now_ms)),
            column(names, name),
        ) == Cell::Null,
{
    lemma_column(names, name, 0);
}

/// A copy whose values compare as they are stored is seen by the account that it was
/// made for, and by no other.
pub proof fn copy_is_seen_by_its_account(
    names: Seq<Seq<char>>,
    row: Line,
    new_cid: Seq<char>,
    target: Seq<char>,
    now_ms: int,
    uid: Seq<char>,
)
    requires
        column(names, "user_id"@) is Some,
        target.len() > 0,
    ensures
        visible(
            plain(copied_row(names, row, new_cid, target, now_ms)),
            column(names, "user_id"@),
            uid,
        ) <==> uid == target,
{
    lemma_column_names();
    lemma_copied_cell(names, row, new_cid, target, now_ms, "user_id"@);
    reveal_strlit("");
    assert(""@.len() == 0);
}

/// A table with one more row, whose values compare as they are stored.
pub open spec fn extended(g: Grid, row: Seq<Cell>) -> Grid {
    Grid { columns: g.columns, rows: g.rows.push(plain(row)) }
}

/// A copy leaves the rows of the table, and the lists of all other accounts, as they
/// are.
pub proof fn copy_leaves_other_accounts_alone(
    g: Grid,
    row: Line,
    new_cid: Seq<char>,
    target: Seq<char>,
    now_ms: int,
    uid: Seq<char>,
)
    requires
        target.len() > 0,
        uid != target,
    ensures
        ({
            let after = extended(g, copied_row(g.columns, row, new_cid, target, now_ms));
            &&& listing(after, uid) == listing(g, uid)
            &&& after.rows.take(g.rows.len() as int) == g.rows
        }),
{
    let copy = copied_row(g.columns, row, new_cid, target, now_ms);
    let after = extended(g, copy);
    assert(after.rows.take(g.rows.len() as int) =~= g.rows);
    if listable(g.columns) {
        copy_is_seen_by_its_account(g.columns, row, new_cid, target, now_ms, uid);
        assert(after.rows.drop_last() =~= g.rows);
        assert(offered(g.columns, plain(copy), uid) is None);
    }
}

/// A copy of a session that an account was shown is shown to the account that it was
/// made for: the same session, under its new identifier and with its new time, in
/// addition to what that account was shown before.
pub proof fn copy_is_listed_for_its_account(
    g: Grid,
    row: Line,
    new_cid: Seq<char>,
    target: Seq<char>,
    now_ms: int,
    source: Seq<char>,
    s: Listed,
)
    requires
        listable(g.columns),
        offered(g.columns, row, source) == Some(s),
    ensures
        ({
            let after = extended(g, copied_row(g.columns, row, new_cid, target, now_ms));
            let c = Listed { id: new_cid, updated: Some(now_ms), ..s };
            &&& listing(after, target) == placed(listing(g, target), c)
            &&& listing(after, target).contains(c)
        }),
{
    let names = g.columns;
    let copy = copied_row(names, row, new_cid, target, now_ms);
    let after = extended(g, copy);
    let c = Listed { id: new_cid, updated: Some(now_ms), ..s };
    lemma_column_names();
    lemma_copied_cell(names, row, new_cid, target, now_ms, "id"@);
    lemma_copied_cell(names, row, new_cid, target, now_ms, "cwd"@);
    lemma_copied_cell(names, row, new_cid, target, now_ms, "title"@);
    lemma_copied_cell(names, row, new_cid, target, now_ms, "custom_title"@);
    lemma_copied_cell(names, row, new_cid, target, now_ms, "updated_at"@);
    lemma_copied_cell(names, row, new_cid, target, now_ms, "is_playground"@);
    lemma_copied_cell(names, row, new_cid, target, now_ms, "deleted_at"@);
    lemma_copied_cell(names, row, new_cid, target, now_ms, "user_id"@);
    assert(offered(names, plain(copy), target) == Some(c));
    assert(after.rows.drop_last() =~= g.rows);
    assert(after.rows.last() == plain(copy));
    lemma_shown(names, g.rows, target);
    lemma_placed(listing(g, target), c);
}

} // verus!
