//! Copying a session of one account to another, under a new identifier.

use vstd::prelude::*;

use crate::json::{trees, Json, Tree};
use crate::text::{joined, opt_str, replace, replaced, same, texts, trim, trimmed};
use super::share::Store;
use super::store::{claw, is_claw_workspace};
use super::table::{
    alike, cell, cells, column, equals, find_column, is_alike, is_equal, is_visible, place_of,
    value_at, visible, Cell, Grid, Line, SqlValue, Table,
};

verus! {

/// Whether `c` is a hexadecimal digit in lower case.
pub open spec fn is_hex(c: char) -> bool {
    '0' <= c <= '9' || 'a' <= c <= 'f'
}

/// Whether `s` is a random identifier in the form with hyphens.
pub open spec fn is_uuid(s: Seq<char>) -> bool {
    &&& s.len() == 36
    &&& forall|i: int|
        #![trigger s[i]]
        0 <= i < 36 ==> if i == 8 || i == 13 || i == 18 || i == 23 {
            s[i] == '-'
        } else {
            is_hex(s[i])
        }
    &&& s[14] == '4'
    &&& s[19] == '8' || s[19] == '9' || s[19] == 'a' || s[19] == 'b'
}

/// A new identifier, by `uuid::Uuid::new_v4` and the `to_string` of its result: 32
/// hexadecimal digits in lower case with hyphens between them, marked as random.
/// That no two of them are the same rests on chance and is not stated.
#[verifier::external_body]
pub(crate) fn fresh_uuid() -> (r: String)
    ensures
        is_uuid(r@),
{
    uuid::Uuid::new_v4().to_string()
}

/// Whether a row is the session `cid`, and the account `uid` sees it.
pub open spec fn is_source(
    names: Seq<Seq<char>>,
    row: Line,
    cid: Seq<char>,
    uid: Seq<char>,
) -> bool {
    equals(row, column(names, "id"@), cid) && visible(row, column(names, "user_id"@), uid)
}

/// The first row from `i` on that is the session `cid` and that the account `uid`
/// sees.
pub open spec fn source_from(g: Grid, cid: Seq<char>, uid: Seq<char>, i: int) -> Option<int>
    decreases g.rows.len() - i,
{
    if i < 0 || i >= g.rows.len() {
        None
    } else if is_source(g.columns, g.rows[i], cid, uid) {
        Some(i)
    } else {
        source_from(g, cid, uid, i + 1)
    }
}

/// One value of a copy.
pub open spec fn copied_cell(
    name: Seq<char>,
    value: Cell,
    new_cid: Seq<char>,
    target: Seq<char>,
    now_ms: int,
) -> Cell {
    if alike(name, "id"@) {
        Cell::Text(new_cid)
    } else if alike(name, "user_id"@) {
        Cell::Text(target)
    } else if alike(name, "created_at"@) || alike(name, "updated_at"@) {
        Cell::Integer(now_ms)
    } else if alike(name, "deleted_at"@) {
        Cell::Null
    } else {
        value
    }
}

/// The copy of a row: a new identifier, owner and time, not deleted, and otherwise
/// the same.
pub open spec fn copied_row(
    names: Seq<Seq<char>>,
    row: Line,
    new_cid: Seq<char>,
    target: Seq<char>,
    now_ms: int,
) -> Seq<Cell> {
    Seq::new(
        names.len(),
        |k: int| copied_cell(names[k], cell(row, Some(k)), new_cid, target, now_ms),
    )
}

/// Whether the workspace of a session is bound to a channel.
pub open spec fn channel_bound(cwd: Cell) -> bool {
    match cwd {
        Cell::Text(s) => claw(s),
        _ => false,
    }
}

/// Whether a table has the columns that finding a session needs.
pub open spec fn has_source_columns(names: Seq<Seq<char>>) -> bool {
    column(names, "id"@) is Some && column(names, "user_id"@) is Some
}

/// Whether an open table has the columns that the database would refuse to do without.
pub open spec fn searchable(store: Store) -> bool {
    match store {
        Store::Open(t) => has_source_columns(t@.columns),
        _ => true,
    }
}

/// What copying a session comes to: the row to be added, if there is one, or a
/// message.
pub open spec fn copying(
    store: Store,
    new_cid: Seq<char>,
    cid: Seq<char>,
    source: Seq<char>,
    target: Seq<char>,
    now_ms: int,
) -> Result<Option<Seq<Cell>>, Seq<char>> {
    match store {
        Store::Missing(_) | Store::Closed | Store::NoTable => Ok(None),
        Store::Refused(said) => Err(said@),
        Store::Open(t) => match source_from(t@, cid, source, 0) {
            None => Ok(None),
            Some(i) => if channel_bound(cell(t@.rows[i], column(t@.columns, "cwd"@))) {
                Err("Claw 工作区绑定当前账号渠道，不支持复制"@)
            } else {
                Ok(Some(copied_row(t@.columns, t@.rows[i], new_cid, target, now_ms)))
            },
        },
    }
}

/// Whether a table has the columns that finding a session needs.
pub fn can_search(t: &Table) -> (r: bool)
    ensures
        r == has_source_columns(t@.columns),
{
    find_column(&t.columns, "id").is_some() && find_column(&t.columns, "user_id").is_some()
}

/// The result in the model.
pub open spec fn outcome(r: Result<Option<Vec<SqlValue>>, String>) -> Result<
    Option<Seq<Cell>>,
    Seq<char>,
> {
    match r {
        Ok(Some(row)) => Ok(Some(cells(row@))),
        Ok(None) => Ok(None),
        Err(e) => Err(e@),
    }
}

/// The first row that is the session `cid` and that the account `uid` sees.
fn find_source(t: &Table, cid: &str, uid: &str) -> (r: Option<usize>)
    ensures
        place_of(r) == source_from(t@, cid@, uid@, 0),
        r matches Some(i) ==> i < t.rows@.len(),
{
    let id = find_column(&t.columns, "id");
    let owner = find_column(&t.columns, "user_id");
    let mut i: usize = 0;
    while i < t.rows.len()
        invariant
            i <= t.rows.len(),
            place_of(id) == column(t@.columns, "id"@),
            place_of(owner) == column(t@.columns, "user_id"@),
            source_from(t@, cid@, uid@, 0) == source_from(t@, cid@, uid@, i as int),
        decreases t.rows.len() - i,
    {
        let row = &t.rows[i];
        assert(t@.rows[i as int] == row@);
        if is_equal(row, id, cid) && is_visible(row, owner, uid) {
            return Some(i);
        }
        i = i + 1;
    }
    None
}

/// One value of a copy.
fn copy_cell(name: &str, value: Option<&SqlValue>, new_cid: &str, target: &str, now_ms: i64) -> (r:
    SqlValue)
    ensures
        r@ == copied_cell(
            name@,
            match value {
                Some(v) => v@,
                None => Cell::Null,
            },
            new_cid@,
            target@,
            now_ms as int,
        ),
{
    if is_alike(name, "id") {
        SqlValue::Text(new_cid.to_owned())
    } else if is_alike(name, "user_id") {
        SqlValue::Text(target.to_owned())
    } else if is_alike(name, "created_at") || is_alike(name, "updated_at") {
        SqlValue::Integer(now_ms)
    } else if is_alike(name, "deleted_at") {
        SqlValue::Null
    } else {
        match value {
            Some(v) => v.copy(),
            None => SqlValue::Null,
        }
    }
}

/// The copy of a session as a row to be added. Where there is no database, or no such
/// table in it, there is nothing to add, as where the session is not found. Where the
/// database refuses, its words are passed on. The source stays as it is.
pub fn insert_session_copy(
    store: &Store,
    new_cid: &str,
    cid: &str,
    source_uid: &str,
    target_uid: &str,
    now_ms: i64,
) -> (r: Result<Option<Vec<SqlValue>>, String>)
    requires
        searchable(*store),
    ensures
        outcome(r) == copying(
            *store,
            new_cid@,
            cid@,
            source_uid@,
            target_uid@,
            now_ms as int,
        ),
{
    let t = match store {
        Store::Missing(_) | Store::Closed | Store::NoTable => {
            return Ok(None);
        },
        Store::Refused(said) => {
            return Err(said.as_str().to_owned());
        },
        Store::Open(t) => t,
    };
    let Some(at) = find_source(t, cid, source_uid) else {
        return Ok(None);
    };
    let row = &t.rows[at];
    assert(t@.rows[at as int] == row@);
    let workspace = value_at(row, find_column(&t.columns, "cwd"));
    let is_bound = match workspace {
        Some(v) => match v {
            SqlValue::Text(s) => is_claw_workspace(s.as_str()),
            _ => false,
        },
        None => false,
    };
    if is_bound {
        return Err("Claw 工作区绑定当前账号渠道，不支持复制".to_owned());
    }
    let ghost want = copied_row(t@.columns, row@, new_cid@, target_uid@, now_ms as int);
    let mut out: Vec<SqlValue> = Vec::new();
    let mut k: usize = 0;
    while k < t.columns.len()
        invariant
            k <= t.columns.len(),
            want == copied_row(t@.columns, row@, new_cid@, target_uid@, now_ms as int),
            out@.len() == k,
            forall|j: int| 0 <= j < k ==> (#[trigger] out@[j])@ == want[j],
        decreases t.columns.len() - k,
    {
        assert(t@.columns[k as int] == t.columns@[k as int]@);
        let v = copy_cell(
            t.columns[k].as_str(),
            value_at(row, Some(k)),
            new_cid,
            target_uid,
            now_ms,
        );
        out.push(v);
        k = k + 1;
    }
    assert(cells(out@) =~= want);
    Ok(Some(out))
}

/// Texts with a separator between them.
pub open spec fn joined_by(v: Seq<Seq<char>>, sep: Seq<char>) -> Seq<char>
    decreases v.len(),
{
    if v.len() == 0 {
        Seq::empty()
    } else if v.len() == 1 {
        v[0]
    } else {
        joined_by(v.drop_last(), sep) + sep + v.last()
    }
}

/// The statement that adds a row with the columns `names`.
pub open spec fn insertion(names: Seq<Seq<char>>) -> Seq<char> {
    "INSERT OR REPLACE INTO sessions ("@ + joined_by(names, ", "@) + ") VALUES ("@ + joined_by(
        names.map_values(|n: Seq<char>| "?"@),
        ", "@,
    ) + ")"@
}

/// The statement that adds a row with the columns `names`.
pub fn insert_statement(names: &Vec<String>) -> (r: String)
    ensures
        r@ == insertion(texts(names@)),
{
    let ghost all = texts(names@);
    let ghost marks = all.map_values(|n: Seq<char>| "?"@);
    let mut cols = String::new();
    let mut holes = String::new();
    let mut i: usize = 0;
    proof {
        assert(cols@ =~= Seq::<char>::empty());
        assert(all.take(0) =~= Seq::<Seq<char>>::empty());
        assert(marks.take(0) =~= Seq::<Seq<char>>::empty());
    }
    while i < names.len()
        invariant
            i <= names.len(),
            all == texts(names@),
            marks == all.map_values(|n: Seq<char>| "?"@),
            cols@ == joined_by(all.take(i as int), ", "@),
            holes@ == joined_by(marks.take(i as int), ", "@),
        decreases names.len() - i,
    {
        proof {
            assert(all.take(i + 1).drop_last() =~= all.take(i as int));
            assert(marks.take(i + 1).drop_last() =~= marks.take(i as int));
            assert(all.take(i + 1).last() == names@[i as int]@);
            assert(marks.take(i + 1).last() == "?"@);
        }
        if i > 0 {
            cols.append(", ");
            holes.append(", ");
        }
        cols.append(names[i].as_str());
        holes.append("?");
        proof {
            assert(cols@ =~= joined_by(all.take(i + 1), ", "@));
            assert(holes@ =~= joined_by(marks.take(i + 1), ", "@));
        }
        i = i + 1;
    }
    proof {
        assert(all.take(names@.len() as int) =~= all);
        assert(marks.take(names@.len() as int) =~= marks);
    }
    let mut sql = "INSERT OR REPLACE INTO sessions (".to_owned();
    sql.append(cols.as_str());
    sql.append(") VALUES (");
    sql.append(holes.as_str());
    sql.append(")");
    sql
}

/// An entry of the file that maps sessions to the cloud.
pub struct Mapping {
    pub session_id: String,
    pub conversation_id: String,
    pub msg_channel: String,
    pub created_at: i64,
}

/// Whether `r` is the entry for the session `new_cid` of the account `target_uid`, made at the
/// time `now_secs`, given whether there is a table for it.
pub open spec fn mapped(
    has_table: bool,
    new_cid: Seq<char>,
    target_uid: Seq<char>,
    now_secs: i64,
    r: Option<Mapping>,
) -> bool {
    match r {
        Some(m) => has_table && m.session_id@ == new_cid && m.conversation_id@ == new_cid
            && m.msg_channel@ == "convmsg:"@ + target_uid && m.created_at == now_secs,
        None => !has_table,
    }
}

/// The entry for a new session of the account `target_uid`, made at the time
/// `now_secs`; none where there is no table for it.
pub fn insert_edge_sync_mapping(has_table: bool, new_cid: &str, target_uid: &str, now_secs: i64) -> (r:
    Option<Mapping>)
    ensures
        mapped(has_table, new_cid@, target_uid@, now_secs, r),
{
    if !has_table {
        return None;
    }
    Some(
        Mapping {
            session_id: new_cid.to_owned(),
            conversation_id: new_cid.to_owned(),
            msg_channel: joined("convmsg:", target_uid),
            created_at: now_secs,
        },
    )
}

/// The entry for a new session in the file of an edition that maps sessions to the
/// cloud.
pub fn register_edge_sync_mapping_for(
    has_table: bool,
    new_cid: &str,
    target_uid: &str,
    now_secs: i64,
) -> (r: Option<Mapping>)
    ensures
        mapped(has_table, new_cid@, target_uid@, now_secs, r),
{
    insert_edge_sync_mapping(has_table, new_cid, target_uid, now_secs)
}

/// The body of a session for its copy: every mention of the old identifier becomes
/// one of the new.
pub fn copied_body(text: &str, cid: &str, new_cid: &str) -> (r: String)
    ensures
        r@ == replace(text@, cid@, new_cid@),
{
    replaced(text, cid, new_cid)
}

/// A copy that is under way.
pub struct Copying {
    /// The new identifier.
    pub new_cid: String,
    /// The row to be added, if there is one.
    pub row: Option<Vec<SqlValue>>,
}

/// Decides how a session is copied to the account `target_uid` under the new
/// identifier `new_cid`.
pub fn plan_copy(
    store: &Store,
    new_cid: &str,
    cid: &str,
    source_uid: &str,
    target_uid: &str,
    now_ms: i64,
) -> (r: Result<Copying, String>)
    requires
        searchable(*store),
    ensures
        match copying(
            *store,
            new_cid@,
            cid@,
            source_uid@,
            target_uid@,
            now_ms as int,
        ) {
            Ok(row) => r is Ok && r->Ok_0.new_cid@ == new_cid@ && outcome(
                Ok::<Option<Vec<SqlValue>>, String>(r->Ok_0.row),
            ) == Ok::<Option<Seq<Cell>>, Seq<char>>(row),
            Err(e) => r is Err && r->Err_0@ == e,
        },
{
    match insert_session_copy(store, new_cid, cid, source_uid, target_uid, now_ms) {
        Ok(row) => Ok(Copying { new_cid: new_cid.to_owned(), row }),
        Err(e) => Err(e),
    }
}

/// Decides how a session is copied to the account `target_uid`, under an identifier
/// that is made for it.
pub fn copy_session_to_user_for(
    store: &Store,
    cid: &str,
    source_uid: &str,
    target_uid: &str,
    now_ms: i64,
) -> (r: Result<Copying, String>)
    requires
        searchable(*store),
    ensures
        match r {
            Ok(c) => is_uuid(c.new_cid@) && outcome(
                Ok::<Option<Vec<SqlValue>>, String>(c.row),
            ) == copying(
                *store,
                c.new_cid@,
                cid@,
                source_uid@,
                target_uid@,
                now_ms as int,
            ),
            Err(e) => forall|id: Seq<char>|
                #[trigger] copying(
                    *store,
                    id,
                    cid@,
                    source_uid@,
                    target_uid@,
                    now_ms as int,
                ) == Err::<Option<Seq<Cell>>, Seq<char>>(e@),
        },
{
    let new_cid = fresh_uuid();
    plan_copy(store, new_cid.as_str(), cid, source_uid, target_uid, now_ms)
}

/// Decides how a session of the domestic edition is copied.
pub fn copy_session_to_user(
    store: &Store,
    cid: &str,
    source_uid: &str,
    target_uid: &str,
    now_ms: i64,
) -> (r: Result<Copying, String>)
    requires
        searchable(*store),
    ensures
        match r {
            Ok(c) => is_uuid(c.new_cid@) && outcome(
                Ok::<Option<Vec<SqlValue>>, String>(c.row),
            ) == copying(
                *store,
                c.new_cid@,
                cid@,
                source_uid@,
                target_uid@,
                now_ms as int,
            ),
            Err(e) => forall|id: Seq<char>|
                #[trigger] copying(
                    *store,
                    id,
                    cid@,
                    source_uid@,
                    target_uid@,
                    now_ms as int,
                ) == Err::<Option<Seq<Cell>>, Seq<char>>(e@),
        },
{
    copy_session_to_user_for(store, cid, source_uid, target_uid, now_ms)
}

/// What is reported of a copied session.
pub open spec fn copy_document(
    cid: Seq<char>,
    new_cid: Seq<char>,
    body: bool,
    mapping: bool,
    backup: Seq<char>,
) -> Tree {
    Tree::Dict(
        Map::<Seq<char>, Tree>::empty().insert("id"@, Tree::Text(cid)).insert(
            "newId"@,
            Tree::Text(new_cid),
        ).insert("jsonlCopied"@, Tree::Bool(body)).insert("mappingWritten"@, Tree::Bool(mapping)).insert(
            "backup"@,
            Tree::Text(backup),
        ),
    )
}

/// What is reported of a copied session: whether its body was copied and its mapping
/// written, and where the backup is.
pub fn copy_report(cid: &str, new_cid: &str, body: bool, mapping: bool, backup: &str) -> (r: Json)
    ensures
        r.tree() == copy_document(cid@, new_cid@, body, mapping, backup@),
{
    let mut d = Json::dict();
    d.set("id", Json::text(cid));
    d.set("newId", Json::text(new_cid));
    d.set("jsonlCopied", Json::Bool(body));
    d.set("mappingWritten", Json::Bool(mapping));
    d.set("backup", Json::text(backup));
    d
}

/// The accounts between which sessions are copied: from the one that is logged in to
/// the target, unless the target has no identifier or is logged in itself.
pub open spec fn copy_pair(target: Tree, source: Option<Seq<char>>) -> Option<(Seq<char>, Seq<char>)> {
    let uid = trim(target.text_or_empty("uid"@));
    match source {
        Some(s) => if uid.len() > 0 && s != uid {
            Some((s, uid))
        } else {
            None
        },
        None => None,
    }
}

/// The accounts between which sessions are copied.
pub struct Pair {
    pub source_uid: String,
    pub target_uid: String,
}

/// Decides between which accounts sessions are copied before a switch to the account
/// `target`, given the identifier of the account that is logged in.
pub fn copy_sessions_for_switch_for(target: &Json, source_uid: Option<&str>) -> (r: Option<Pair>)
    ensures
        copy_pair(target.tree(), opt_str(source_uid)) == match r {
            Some(p) => Some((p.source_uid@, p.target_uid@)),
            None => None,
        },
{
    let stored = target.str_or_empty("uid");
    let uid = trimmed(stored.as_str());
    if uid.as_str().is_empty() {
        return None;
    }
    let Some(s) = source_uid else {
        return None;
    };
    if same(s, uid.as_str()) {
        return None;
    }
    Some(Pair { source_uid: s.to_owned(), target_uid: uid })
}

/// Decides between which accounts of the domestic edition sessions are copied.
pub fn copy_sessions_for_switch(target: &Json, source_uid: Option<&str>) -> (r: Option<Pair>)
    ensures
        copy_pair(target.tree(), opt_str(source_uid)) == match r {
            Some(p) => Some((p.source_uid@, p.target_uid@)),
            None => None,
        },
{
    copy_sessions_for_switch_for(target, source_uid)
}

/// How copying one session ended.
pub enum Copied {
    /// It was copied; what is reported of it.
    Done(Json),
    /// It was not; its identifier and a message.
    Failed(String, String),
}

/// The reports of the sessions that were copied.
pub open spec fn reports(v: Seq<Copied>) -> Seq<Tree>
    decreases v.len(),
{
    if v.len() == 0 {
        Seq::empty()
    } else {
        match v.last() {
            Copied::Done(j) => reports(v.drop_last()).push(j.tree()),
            Copied::Failed(_, _) => reports(v.drop_last()),
        }
    }
}

/// What is reported of a session that was not copied.
pub open spec fn failure_document(cid: Seq<char>, message: Seq<char>) -> Tree {
    Tree::Dict(
        Map::<Seq<char>, Tree>::empty().insert("id"@, Tree::Text(cid)).insert(
            "error"@,
            Tree::Text(message),
        ),
    )
}

/// The reports of the sessions that were not copied.
pub open spec fn failures(v: Seq<Copied>) -> Seq<Tree>
    decreases v.len(),
{
    if v.len() == 0 {
        Seq::empty()
    } else {
        match v.last() {
            Copied::Done(_) => failures(v.drop_last()),
            Copied::Failed(cid, e) => failures(v.drop_last()).push(failure_document(cid@, e@)),
        }
    }
}

/// What is reported of copying sessions.
pub open spec fn copies_document(source: Seq<char>, target: Seq<char>, v: Seq<Copied>) -> Tree {
    let base = Tree::Dict(
        Map::<Seq<char>, Tree>::empty().insert("sourceUid"@, Tree::Text(source)).insert(
            "targetUid"@,
            Tree::Text(target),
        ).insert("copied"@, Tree::List(reports(v))),
    );
    if failures(v).len() > 0 {
        base.with("errors"@, Tree::List(failures(v)))
    } else {
        base
    }
}

/// What is reported of copying sessions, given how copying each of them ended.
pub fn copies_report(pair: &Pair, results: &Vec<Copied>) -> (r: Json)
    ensures
        r.tree() == copies_document(pair.source_uid@, pair.target_uid@, results@),
{
    let mut done: Vec<Json> = Vec::new();
    let mut errors: Vec<Json> = Vec::new();
    let mut i: usize = 0;
    proof {
        assert(results@.take(0) =~= Seq::<Copied>::empty());
        assert(trees(done@) =~= Seq::<Tree>::empty());
    }
    while i < results.len()
        invariant
            i <= results.len(),
            trees(done@) == reports(results@.take(i as int)),
            trees(errors@) == failures(results@.take(i as int)),
        decreases results.len() - i,
    {
        let ghost done0 = done@;
        let ghost errors0 = errors@;
        proof {
            assert(results@.take(i + 1).drop_last() =~= results@.take(i as int));
            assert(results@.take(i + 1).last() == results@[i as int]);
        }
        match &results[i] {
            Copied::Done(j) => {
                let c = j.copy();
                done.push(c);
                assert(trees(done@) =~= trees(done0).push(c.tree()));
            },
            Copied::Failed(cid, e) => {
                let mut d = Json::dict();
                d.set("id", Json::text(cid.as_str()));
                d.set("error", Json::text(e.as_str()));
                errors.push(d);
                assert(trees(errors@) =~= trees(errors0).push(d.tree()));
            },
        }
        i = i + 1;
    }
    assert(results@.take(results@.len() as int) =~= results@);
    let any = errors.len() > 0;
    assert(trees(errors@).len() == errors@.len());
    let done_list = Json::List(done);
    assert(done_list.tree()->List_0 =~= trees(done@));
    let error_list = Json::List(errors);
    assert(error_list.tree()->List_0 =~= trees(errors@));
    let mut d = Json::dict();
    d.set("sourceUid", Json::text(pair.source_uid.as_str()));
    d.set("targetUid", Json::text(pair.target_uid.as_str()));
    d.set("copied", done_list);
    if any {
        d.set("errors", error_list);
    }
    d
}

} // verus!
