//! The sessions that an account sees.

use vstd::prelude::*;

use crate::edition::{data_place, Edition};
use crate::json::{Json, Tree};
use crate::path::Place;
use super::store::{
    body_place, claw, data_dir_of, find_project_jsonl_in, is_claw_workspace, opt_text,
    session_display_title, shown_title, workbuddy_db_path_for, Bodies,
};
use super::table::{
    cell, column, exact_column, find_column, find_exact, is_null, is_visible, place_of, value_at,
    visible, Cell, Grid, Line, Row, SqlValue, Table,
};

verus! {

/// A session as it is listed.
#[verifier::ext_equal]
pub struct Listed {
    pub id: Seq<char>,
    pub title: Seq<char>,
    pub cwd: Seq<char>,
    pub updated: Option<int>,
    pub playground: bool,
}

/// The text of a value that is a text or missing.
pub open spec fn text_in(c: Cell) -> Option<Option<Seq<char>>> {
    match c {
        Cell::Null => Some(None),
        Cell::Text(s) => Some(Some(s)),
        _ => None,
    }
}

/// The integer of a value that is an integer or missing.
pub open spec fn int_in(c: Cell) -> Option<Option<int>> {
    match c {
        Cell::Null => Some(None),
        Cell::Integer(i) => Some(Some(i)),
        _ => None,
    }
}

/// The text, or the empty text.
pub open spec fn or_empty(s: Option<Seq<char>>) -> Seq<char> {
    match s {
        Some(x) => x,
        None => Seq::empty(),
    }
}

/// Whether a table has the columns without which it cannot be listed.
pub open spec fn listable(names: Seq<Seq<char>>) -> bool {
    &&& column(names, "id"@) is Some
    &&& column(names, "cwd"@) is Some
    &&& column(names, "title"@) is Some
    &&& column(names, "updated_at"@) is Some
    &&& column(names, "deleted_at"@) is Some
    &&& column(names, "user_id"@) is Some
}

/// The session in a row, as far as its values are of the kinds that they should be.
/// A table without the columns for it has no titles given by users, and no
/// playgrounds.
pub open spec fn session_in(names: Seq<Seq<char>>, row: Line) -> Option<Listed> {
    let id = text_in(cell(row, column(names, "id"@)));
    let cwd = text_in(cell(row, column(names, "cwd"@)));
    let title = text_in(cell(row, column(names, "title"@)));
    let custom = text_in(cell(row, exact_column(names, "custom_title"@)));
    let updated = int_in(cell(row, column(names, "updated_at"@)));
    let playground = int_in(cell(row, exact_column(names, "is_playground"@)));
    if id is Some && cwd is Some && title is Some && custom is Some && updated is Some
        && playground is Some {
        Some(
            Listed {
                id: or_empty(id->0),
                title: shown_title(title->0, custom->0),
                cwd: or_empty(cwd->0),
                updated: updated->0,
                playground: match playground->0 {
                    Some(i) => i != 0,
                    None => false,
                },
            },
        )
    } else {
        None
    }
}

/// The session in a row, if the account `uid` is shown it: it is not deleted, the
/// account sees it, and its workspace is not bound to a channel.
pub open spec fn offered(names: Seq<Seq<char>>, row: Line, uid: Seq<char>) -> Option<Listed> {
    if cell(row, column(names, "deleted_at"@)) == Cell::Null && visible(
        row,
        column(names, "user_id"@),
        uid,
    ) {
        match session_in(names, row) {
            Some(s) => if claw(s.cwd) {
                None
            } else {
                Some(s)
            },
            None => None,
        }
    } else {
        None
    }
}

/// Whether a session was changed after another. One without a time counts as the
/// oldest.
pub open spec fn later(a: Option<int>, b: Option<int>) -> bool {
    match (a, b) {
        (Some(x), Some(y)) => x > y,
        (Some(_), None) => true,
        (None, _) => false,
    }
}

/// `list` with `s`, after all sessions that were not changed before it.
pub open spec fn placed(list: Seq<Listed>, s: Listed) -> Seq<Listed>
    decreases list.len(),
{
    if list.len() > 0 && later(s.updated, list.last().updated) {
        placed(list.drop_last(), s).push(list.last())
    } else {
        list.push(s)
    }
}

/// The sessions in rows that the account `uid` is shown, the latest first.
pub open spec fn shown(names: Seq<Seq<char>>, rows: Seq<Line>, uid: Seq<char>) -> Seq<Listed>
    decreases rows.len(),
{
    if rows.len() == 0 {
        Seq::empty()
    } else {
        let before = shown(names, rows.drop_last(), uid);
        match offered(names, rows.last(), uid) {
            Some(s) => placed(before, s),
            None => before,
        }
    }
}

/// The sessions in a table that the account `uid` is shown.
pub open spec fn listing(g: Grid, uid: Seq<char>) -> Seq<Listed> {
    if listable(g.columns) {
        shown(g.columns, g.rows, uid)
    } else {
        Seq::empty()
    }
}

/// A session as it is listed.
pub struct SessionEntry {
    pub id: String,
    pub title: String,
    pub cwd: String,
    pub updated_at: Option<i64>,
    pub is_playground: bool,
}

impl View for SessionEntry {
    type V = Listed;

    open spec fn view(&self) -> Listed {
        Listed {
            id: self.id@,
            title: self.title@,
            cwd: self.cwd@,
            updated: match self.updated_at {
                Some(t) => Some(t as int),
                None => None,
            },
            playground: self.is_playground,
        }
    }
}

/// The sessions of entries.
pub open spec fn entries(v: Seq<SessionEntry>) -> Seq<Listed> {
    v.map_values(|e: SessionEntry| e@)
}

/// The positions of the columns that are listed.
struct Columns {
    id: Option<usize>,
    cwd: Option<usize>,
    title: Option<usize>,
    custom_title: Option<usize>,
    updated_at: Option<usize>,
    is_playground: Option<usize>,
    deleted_at: Option<usize>,
    user_id: Option<usize>,
}

impl Columns {
    /// Whether these are the positions of the columns named `names`.
    spec fn of(self, names: Seq<Seq<char>>) -> bool {
        &&& place_of(self.id) == column(names, "id"@)
        &&& place_of(self.cwd) == column(names, "cwd"@)
        &&& place_of(self.title) == column(names, "title"@)
        &&& place_of(self.custom_title) == exact_column(names, "custom_title"@)
        &&& place_of(self.updated_at) == column(names, "updated_at"@)
        &&& place_of(self.is_playground) == exact_column(names, "is_playground"@)
        &&& place_of(self.deleted_at) == column(names, "deleted_at"@)
        &&& place_of(self.user_id) == column(names, "user_id"@)
    }
}

/// The text of a value that is a text or missing.
fn text_value(v: Option<&SqlValue>) -> (r: Option<Option<String>>)
    ensures
        text_in(
            match v {
                Some(x) => x@,
                None => Cell::Null,
            },
        ) == match r {
            Some(s) => Some(opt_text(s)),
            None => None,
        },
{
    match v {
        Some(x) => match x {
            SqlValue::Null => Some(None),
            SqlValue::Text(s) => Some(Some(s.as_str().to_owned())),
            _ => None,
        },
        None => Some(None),
    }
}

/// An integer of the model.
pub open spec fn opt_int(i: Option<i64>) -> Option<int> {
    match i {
        Some(x) => Some(x as int),
        None => None,
    }
}

/// The integer of a value that is an integer or missing.
fn int_value(v: Option<&SqlValue>) -> (r: Option<Option<i64>>)
    ensures
        int_in(
            match v {
                Some(x) => x@,
                None => Cell::Null,
            },
        ) == match r {
            Some(i) => Some(opt_int(i)),
            None => None,
        },
{
    match v {
        Some(x) => match x {
            SqlValue::Null => Some(None),
            SqlValue::Integer(i) => Some(Some(*i)),
            _ => None,
        },
        None => Some(None),
    }
}

/// The text, or the empty text.
fn text_or_empty(s: Option<String>) -> (r: String)
    ensures
        r@ == or_empty(opt_text(s)),
{
    match s {
        Some(x) => x,
        None => String::new(),
    }
}

/// The session in a row, if the account `uid` is shown it.
fn entry_of(c: &Columns, names: &Vec<String>, row: &Row, uid: &str) -> (r: Option<
    SessionEntry,
>)
    requires
        c.of(crate::text::texts(names@)),
    ensures
        offered(crate::text::texts(names@), row@, uid@) == match r {
            Some(e) => Some(e@),
            None => None,
        },
{
    if !is_null(value_at(row, c.deleted_at)) || !is_visible(row, c.user_id, uid) {
        return None;
    }
    let Some(id) = text_value(value_at(row, c.id)) else {
        return None;
    };
    let Some(cwd) = text_value(value_at(row, c.cwd)) else {
        return None;
    };
    let Some(title) = text_value(value_at(row, c.title)) else {
        return None;
    };
    let Some(custom) = text_value(value_at(row, c.custom_title)) else {
        return None;
    };
    let Some(updated_at) = int_value(value_at(row, c.updated_at)) else {
        return None;
    };
    let Some(playground) = int_value(value_at(row, c.is_playground)) else {
        return None;
    };
    let cwd = text_or_empty(cwd);
    if is_claw_workspace(cwd.as_str()) {
        return None;
    }
    let is_playground = match playground {
        Some(i) => i != 0,
        None => false,
    };
    Some(
        SessionEntry {
            id: text_or_empty(id),
            title: session_display_title(title, custom),
            cwd,
            updated_at,
            is_playground,
        },
    )
}

/// Whether a session was changed after another.
fn is_later(a: Option<i64>, b: Option<i64>) -> (r: bool)
    ensures
        r == later(opt_int(a), opt_int(b)),
{
    match (a, b) {
        (Some(x), Some(y)) => x > y,
        (Some(_), None) => true,
        (None, _) => false,
    }
}

/// Adds a session after all that were not changed before it.
fn place(list: &mut Vec<SessionEntry>, e: SessionEntry)
    ensures
        entries(final(list)@) == placed(entries(old(list)@), e@),
{
    let ghost all = entries(list@);
    let mut i: usize = list.len();
    assert(all.take(all.len() as int) =~= all);
    assert(all.skip(all.len() as int) =~= Seq::<Listed>::empty());
    assert(placed(all, e@) + Seq::<Listed>::empty() =~= placed(all, e@));
    while i > 0 && is_later(e.updated_at, list[i - 1].updated_at)
        invariant
            i <= list.len(),
            list@ == old(list)@,
            all == entries(list@),
            placed(all, e@) == placed(all.take(i as int), e@) + all.skip(i as int),
        decreases i,
    {
        proof {
            let t = all.take(i as int);
            assert(t.last() == list@[i - 1]@);
            assert(t.drop_last() =~= all.take(i - 1));
            assert(placed(t, e@) + all.skip(i as int) =~= placed(all.take(i - 1), e@) + all.skip(
                i - 1,
            ));
        }
        i = i - 1;
    }
    proof {
        let t = all.take(i as int);
        if i > 0 {
            assert(t.last() == list@[i - 1]@);
        }
        assert(placed(t, e@) =~= t.push(e@));
        assert(all.insert(i as int, e@) =~= t.push(e@) + all.skip(i as int));
    }
    list.insert(i, e);
    assert(entries(list@) =~= all.insert(i as int, e@));
}

/// The sessions in a table that the account `uid` is shown, the latest first. `table`
/// is missing where there is no database, or no such table in it.
pub fn list_sessions_in(table: Option<&Table>, uid: &str) -> (r: Vec<SessionEntry>)
    ensures
        entries(r@) == match table {
            Some(t) => listing(t@, uid@),
            None => Seq::empty(),
        },
{
    let mut out: Vec<SessionEntry> = Vec::new();
    assert(entries(out@) =~= Seq::<Listed>::empty());
    let Some(t) = table else {
        return out;
    };
    let ghost names = t@.columns;
    let c = Columns {
        id: find_column(&t.columns, "id"),
        cwd: find_column(&t.columns, "cwd"),
        title: find_column(&t.columns, "title"),
        custom_title: find_exact(&t.columns, "custom_title"),
        updated_at: find_column(&t.columns, "updated_at"),
        is_playground: find_exact(&t.columns, "is_playground"),
        deleted_at: find_column(&t.columns, "deleted_at"),
        user_id: find_column(&t.columns, "user_id"),
    };
    if c.id.is_none() || c.cwd.is_none() || c.title.is_none() || c.updated_at.is_none()
        || c.deleted_at.is_none() || c.user_id.is_none() {
        return out;
    }
    let mut i: usize = 0;
    assert(t@.rows.take(0) =~= Seq::<Line>::empty());
    while i < t.rows.len()
        invariant
            i <= t.rows.len(),
            names == t@.columns,
            c.of(names),
            entries(out@) == shown(names, t@.rows.take(i as int), uid@),
        decreases t.rows.len() - i,
    {
        proof {
            assert(t@.rows.take(i + 1).drop_last() =~= t@.rows.take(i as int));
            assert(t@.rows.take(i + 1).last() == t.rows@[i as int]@);
        }
        match entry_of(&c, &t.columns, &t.rows[i], uid) {
            Some(e) => {
                place(&mut out, e);
            },
            None => {},
        }
        i = i + 1;
    }
    assert(t@.rows.take(t.rows@.len() as int) =~= t@.rows);
    out
}

/// A listed session as a document.
pub open spec fn session_document(s: Listed, history: bool) -> Tree {
    Tree::Dict(
        Map::<Seq<char>, Tree>::empty().insert("id"@, Tree::Text(s.id)).insert(
            "title"@,
            Tree::Text(s.title),
        ).insert("cwd"@, Tree::Text(s.cwd)).insert(
            "updatedAt"@,
            Tree::Int(
                match s.updated {
                    Some(t) => t,
                    None => 0,
                },
            ),
        ).insert("hasHistory"@, Tree::Bool(history)).insert(
            "isPlayground"@,
            Tree::Bool(s.playground),
        ),
    )
}

/// Whether the body of a session is there, given the data directory and what is in the
/// directory of all bodies, if there is one.
pub open spec fn has_body(data: Place, bodies: Option<Bodies>, cid: Seq<char>) -> bool {
    match bodies {
        Some(b) => body_place(data.join("projects"@), b, cid) is Some,
        None => false,
    }
}

/// Listed sessions as a document, given the data directory and what is in the directory of
/// all bodies, if there is one.
pub open spec fn sessions_document(list: Seq<Listed>, data: Place, bodies: Option<Bodies>) -> Tree {
    Tree::List(list.map_values(|s: Listed| session_document(s, has_body(data, bodies, s.id))))
}

/// What is in the directory of all bodies, if there is one.
pub open spec fn opt_bodies(b: Option<&Bodies>) -> Option<Bodies> {
    match b {
        Some(x) => Some(*x),
        None => None,
    }
}

/// The sessions of an edition that the account `uid` is shown, as a document. The bodies
/// of sessions are kept beside their database.
pub fn list_sessions_for_user_for(
    edition: Edition,
    home: &str,
    table: Option<&Table>,
    bodies: Option<&Bodies>,
    uid: &str,
) -> (r: Json)
    ensures
        r.tree() == sessions_document(
            match table {
                Some(t) => listing(t@, uid@),
                None => Seq::<Listed>::empty(),
            },
            data_place(edition, home@),
            opt_bodies(bodies),
        ),
{
    let list = list_sessions_in(table, uid);
    let db = workbuddy_db_path_for(edition, home);
    let dir = data_dir_of(&db);
    assert(dir@ =~= data_place(edition, home@));
    let projects = dir.join("projects");
    let ghost all = entries(list@);
    let ghost f = |s: Listed| session_document(s, has_body(data_place(edition, home@), opt_bodies(bodies), s.id));
    let mut out: Vec<Json> = Vec::new();
    let mut i: usize = 0;
    while i < list.len()
        invariant
            i <= list.len(),
            all == entries(list@),
            projects@ == data_place(edition, home@).join("projects"@),
            f == (|s: Listed| session_document(s, has_body(data_place(edition, home@), opt_bodies(bodies), s.id))),
            out@.len() == i,
            forall|k: int| 0 <= k < i ==> (#[trigger] out@[k]).tree() == f(all[k]),
        decreases list.len() - i,
    {
        let e = &list[i];
        let history = match bodies {
            Some(b) => find_project_jsonl_in(&projects, b, e.id.as_str()).is_some(),
            None => false,
        };
        let updated: i64 = match e.updated_at {
            Some(t) => t,
            None => 0,
        };
        let mut d = Json::dict();
        d.set("id", Json::text(e.id.as_str()));
        d.set("title", Json::text(e.title.as_str()));
        d.set("cwd", Json::text(e.cwd.as_str()));
        d.set("updatedAt", Json::integer(updated));
        d.set("hasHistory", Json::Bool(history));
        d.set("isPlayground", Json::Bool(e.is_playground));
        assert(all[i as int] == e@);
        out.push(d);
        i = i + 1;
    }
    let r = Json::List(out);
    assert(r.tree()->List_0 =~= all.map_values(f));
    r
}

/// The sessions of the domestic edition that the account `uid` is shown, as a
/// document.
pub fn list_sessions_for_user(
    home: &str,
    table: Option<&Table>,
    bodies: Option<&Bodies>,
    uid: &str,
) -> (r: Json)
    ensures
        r.tree() == sessions_document(
            match table {
                Some(t) => listing(t@, uid@),
                None => Seq::<Listed>::empty(),
            },
            data_place(Edition::Domestic, home@),
            opt_bodies(bodies),
        ),
{
    list_sessions_for_user_for(Edition::Domestic, home, table, bodies, uid)
}

} // verus!
