//! What a copied session keeps and what is new in it, and what is reported of copies.

use vstd::prelude::*;

use crate::json::Tree;
use crate::text::{lower, trim, Class};
use crate::text_laws::{all_in, both_edges_are_taken};
use super::copy::{
    copied_row, copies_document, copy_document, copy_pair, copying, failure_document,
    failures, insertion, is_source, joined_by, mapped, reports, source_from, Copied,
    Mapping,
};
use super::share::Store;
use super::store::claw;
use super::table::{cell, column, equals, visible, Cell, Grid, Line};

verus! {

/// The names of the columns that a copy changes are in lower case.
proof fn lemma_lower_names()
    ensures
        lower("id"@) == "id"@,
        lower("user_id"@) == "user_id"@,
        lower("created_at"@) == "created_at"@,
        lower("updated_at"@) == "updated_at"@,
        lower("deleted_at"@) == "deleted_at"@,
        "id"@ != "user_id"@,
        "id"@ != "created_at"@,
        "id"@ != "updated_at"@,
        "id"@ != "deleted_at"@,
        "user_id"@ != "created_at"@,
        "user_id"@ != "updated_at"@,
        "user_id"@ != "deleted_at"@,
        "created_at"@ != "updated_at"@,
        "created_at"@ != "deleted_at"@,
        "updated_at"@ != "deleted_at"@,
{
    reveal_strlit("id");
    reveal_strlit("user_id");
    reveal_strlit("created_at");
    reveal_strlit("updated_at");
    reveal_strlit("deleted_at");
    assert(lower("id"@) =~= "id"@);
    assert(lower("user_id"@) =~= "user_id"@);
    assert(lower("created_at"@) =~= "created_at"@);
    assert(lower("updated_at"@) =~= "updated_at"@);
    assert(lower("deleted_at"@) =~= "deleted_at"@);
    assert("id"@.len() == 2);
    assert("user_id"@.len() == 7);
    assert("created_at"@[0] == 'c');
    assert("updated_at"@[0] == 'u');
    assert("deleted_at"@[0] == 'd');
    assert("created_at"@.len() == 10);
    assert("updated_at"@.len() == 10);
    assert("deleted_at"@.len() == 10);
}

/// A copy has a new identifier, its new owner and the time of copying, is not deleted, and
/// has every other value of its source; names in upper case count alike.
pub proof fn copy_keeps_all_else(
    names: Seq<Seq<char>>,
    row: Line,
    new_cid: Seq<char>,
    target: Seq<char>,
    now_ms: int,
    k: int,
)
    requires
        0 <= k < names.len(),
    ensures
        ({
            let copy = copied_row(names, row, new_cid, target, now_ms);
            let name = lower(names[k]);
            &&& copy.len() == names.len()
            &&& name == "id"@ ==> copy[k] == Cell::Text(new_cid)
            &&& name == "user_id"@ ==> copy[k] == Cell::Text(target)
            &&& name == "created_at"@ || name == "updated_at"@ ==> copy[k] == Cell::Integer(now_ms)
            &&& name == "deleted_at"@ ==> copy[k] == Cell::Null
            &&& name != "id"@ && name != "user_id"@ && name != "created_at"@ && name
                != "updated_at"@ && name != "deleted_at"@ && k < row.cells.len() ==> copy[k]
                == row.cells[k]
        }),
{
    lemma_lower_names();
}

/// Copies for two accounts differ in their owner alone.
pub proof fn copies_differ_in_their_owner(
    names: Seq<Seq<char>>,
    row: Line,
    new_cid: Seq<char>,
    a: Seq<char>,
    b: Seq<char>,
    now_ms: int,
    k: int,
)
    requires
        0 <= k < names.len(),
        lower(names[k]) != "user_id"@,
    ensures
        copied_row(names, row, new_cid, a, now_ms)[k] == copied_row(
            names,
            row,
            new_cid,
            b,
            now_ms,
        )[k],
{
    lemma_lower_names();
}

/// The source of a copy is the first row that is the session and that the source account
/// sees; there is none only if no row is.
pub proof fn source_is_the_first_that_is_seen(g: Grid, cid: Seq<char>, uid: Seq<char>)
    ensures
        match source_from(g, cid, uid, 0) {
            Some(i) => 0 <= i < g.rows.len() && equals(g.rows[i], column(g.columns, "id"@), cid)
                && visible(g.rows[i], column(g.columns, "user_id"@), uid) && forall|j: int|
                0 <= j < i ==> !(equals(#[trigger] g.rows[j], column(g.columns, "id"@), cid)
                    && visible(g.rows[j], column(g.columns, "user_id"@), uid)),
            None => forall|j: int|
                0 <= j < g.rows.len() ==> !(equals(
                    #[trigger] g.rows[j],
                    column(g.columns, "id"@),
                    cid,
                ) && visible(g.rows[j], column(g.columns, "user_id"@), uid)),
        },
{
    lemma_source(g, cid, uid, 0);
}

/// The first source from a row on.
proof fn lemma_source(g: Grid, cid: Seq<char>, uid: Seq<char>, i: int)
    requires
        0 <= i,
    ensures
        match source_from(g, cid, uid, i) {
            Some(k) => i <= k < g.rows.len() && is_source(g.columns, g.rows[k], cid, uid)
                && forall|j: int|
                i <= j < k ==> !is_source(g.columns, #[trigger] g.rows[j], cid, uid),
            None => forall|j: int|
                i <= j < g.rows.len() ==> !is_source(g.columns, #[trigger] g.rows[j], cid, uid),
        },
    decreases g.rows.len() - i,
{
    if i < g.rows.len() && !is_source(g.columns, g.rows[i], cid, uid) {
        lemma_source(g, cid, uid, i + 1);
    }
}

/// A session is copied just if there is a source whose workspace is not bound to a channel;
/// one that is bound is refused. Where there is no database or no source there is nothing to
/// copy, and where the database refuses, its words are passed on.
pub proof fn sessions_are_copied_unless_bound(
    store: Store,
    new_cid: Seq<char>,
    cid: Seq<char>,
    source: Seq<char>,
    target: Seq<char>,
    now_ms: int,
)
    ensures
        ({
            let r = copying(store, new_cid, cid, source, target, now_ms);
            match store {
                Store::Open(t) => match source_from(t@, cid, source, 0) {
                    Some(i) => {
                        let cwd = cell(t@.rows[i], column(t@.columns, "cwd"@));
                        let bound = cwd matches Cell::Text(s) && claw(s);
                        &&& bound ==> r == Err::<Option<Seq<Cell>>, Seq<char>>(
                            "Claw 工作区绑定当前账号渠道，不支持复制"@,
                        )
                        &&& !bound ==> (r matches Ok(Some(row)) && row == copied_row(
                            t@.columns,
                            t@.rows[i],
                            new_cid,
                            target,
                            now_ms,
                        ))
                    },
                    None => r == Ok::<Option<Seq<Cell>>, Seq<char>>(None),
                },
                Store::Refused(said) => r == Err::<Option<Seq<Cell>>, Seq<char>>(said@),
                _ => r == Ok::<Option<Seq<Cell>>, Seq<char>>(None),
            }
        }),
{
}

/// Texts are put together in order, with the separator between every two.
pub proof fn texts_are_put_together(v: Seq<Seq<char>>, x: Seq<char>, sep: Seq<char>)
    ensures
        joined_by(Seq::empty(), sep).len() == 0,
        joined_by(seq![x], sep) == x,
        v.len() > 0 ==> joined_by(v.push(x), sep) == joined_by(v, sep) + sep + x,
{
    assert(v.push(x).drop_last() =~= v);
}

/// The statement that adds a row names the columns in order, and has a place for each.
pub proof fn statement_names_the_columns(names: Seq<Seq<char>>)
    ensures
        exists|holes: Seq<Seq<char>>|
            holes.len() == names.len() && (forall|i: int|
                0 <= i < holes.len() ==> #[trigger] holes[i] == "?"@) && insertion(names)
                == "INSERT OR REPLACE INTO sessions ("@ + joined_by(names, ", "@) + ") VALUES ("@
                + #[trigger] joined_by(holes, ", "@) + ")"@,
{
    let holes = names.map_values(|n: Seq<char>| "?"@);
    assert(holes.len() == names.len());
    assert(insertion(names) == "INSERT OR REPLACE INTO sessions ("@ + joined_by(names, ", "@)
        + ") VALUES ("@ + joined_by(holes, ", "@) + ")"@);
}

/// The names of members of reports of copies differ from each other.
proof fn lemma_copy_names()
    ensures
        "id"@ != "newId"@,
        "id"@ != "jsonlCopied"@,
        "id"@ != "mappingWritten"@,
        "id"@ != "backup"@,
        "id"@ != "error"@,
        "newId"@ != "jsonlCopied"@,
        "newId"@ != "mappingWritten"@,
        "newId"@ != "backup"@,
        "jsonlCopied"@ != "mappingWritten"@,
        "jsonlCopied"@ != "backup"@,
        "mappingWritten"@ != "backup"@,
        "sourceUid"@ != "targetUid"@,
        "sourceUid"@ != "copied"@,
        "sourceUid"@ != "errors"@,
        "targetUid"@ != "copied"@,
        "targetUid"@ != "errors"@,
        "copied"@ != "errors"@,
{
    reveal_strlit("id");
    reveal_strlit("newId");
    reveal_strlit("jsonlCopied");
    reveal_strlit("mappingWritten");
    reveal_strlit("backup");
    reveal_strlit("error");
    reveal_strlit("sourceUid");
    reveal_strlit("targetUid");
    reveal_strlit("copied");
    reveal_strlit("errors");
    assert("id"@.len() == 2);
    assert("newId"@.len() == 5);
    assert("jsonlCopied"@.len() == 11);
    assert("mappingWritten"@.len() == 14);
    assert("backup"@.len() == 6);
    assert("error"@.len() == 5);
    assert("sourceUid"@.len() == 9);
    assert("targetUid"@.len() == 9);
    assert("sourceUid"@[0] == 's');
    assert("targetUid"@[0] == 't');
    assert("copied"@.len() == 6);
    assert("errors"@.len() == 6);
    assert("copied"@[0] == 'c');
    assert("errors"@[0] == 'e');
}

/// The report of a copy tells both identifiers, what was done and where the backup is.
pub proof fn report_tells_the_copy(
    cid: Seq<char>,
    new_cid: Seq<char>,
    body: bool,
    mapping: bool,
    backup: Seq<char>,
)
    ensures
        ({
            let d = copy_document(cid, new_cid, body, mapping, backup);
            &&& d.get("id"@) == Some(Tree::Text(cid))
            &&& d.get("newId"@) == Some(Tree::Text(new_cid))
            &&& d.get("jsonlCopied"@) == Some(Tree::Bool(body))
            &&& d.get("mappingWritten"@) == Some(Tree::Bool(mapping))
            &&& d.get("backup"@) == Some(Tree::Text(backup))
        }),
{
    lemma_copy_names();
}

/// The report of copies tells both accounts, the reports of all that were copied, and, if
/// there are any, the messages of those that were not.
pub proof fn report_tells_all_copies(source: Seq<char>, target: Seq<char>, v: Seq<Copied>)
    ensures
        ({
            let d = copies_document(source, target, v);
            &&& d.get("sourceUid"@) == Some(Tree::Text(source))
            &&& d.get("targetUid"@) == Some(Tree::Text(target))
            &&& d.get("copied"@) == Some(Tree::List(reports(v)))
            &&& failures(v).len() > 0 ==> d.get("errors"@) == Some(Tree::List(failures(v)))
            &&& failures(v).len() == 0 ==> d.get("errors"@) is None
        }),
{
    lemma_copy_names();
}

/// Every copy is reported once, in order: one that was made by its report, one that was not
/// by its identifier and its message.
pub proof fn every_copy_is_reported(v: Seq<Copied>, c: Copied)
    ensures
        c matches Copied::Done(j) ==> reports(v.push(c)) == reports(v).push(j.tree()) && failures(
            v.push(c),
        ) == failures(v),
        c matches Copied::Failed(cid, e) ==> reports(v.push(c)) == reports(v) && failures(
            v.push(c),
        ).len() == failures(v).len() + 1 && failures(v.push(c)).drop_last() == failures(v)
            && failures(v.push(c)).last().get("id"@) == Some(Tree::Text(cid@)) && failures(
            v.push(c),
        ).last().get("error"@) == Some(Tree::Text(e@)),
        reports(Seq::empty()).len() == 0,
        failures(Seq::empty()).len() == 0,
{
    lemma_copy_names();
    assert(v.push(c).drop_last() =~= v);
    if let Copied::Failed(cid, e) = c {
        assert(failures(v).push(failure_document(cid@, e@)).drop_last() =~= failures(v));
    }
}

/// How many copies were made and how many were not makes up all of them.
pub proof fn all_copies_are_reported(v: Seq<Copied>)
    ensures
        reports(v).len() + failures(v).len() == v.len(),
    decreases v.len(),
{
    if v.len() > 0 {
        all_copies_are_reported(v.drop_last());
    }
}

/// Sessions are copied from the account that is logged in to the target, by its identifier
/// without white space around it; not where nobody is logged in, or the target has no
/// identifier, or is the one that is logged in.
pub proof fn sessions_are_copied_between_two_accounts(
    target: Tree,
    w: Seq<char>,
    x: Seq<char>,
    v: Seq<char>,
    source: Seq<char>,
)
    requires
        all_in(w, Class::White),
        all_in(v, Class::White),
        x.len() > 0 ==> !Class::White.holds(x[0]) && !Class::White.holds(x.last()),
        target.get("uid"@) == Some(Tree::Text(w + x + v)),
    ensures
        x.len() > 0 && x != source ==> copy_pair(target, Some(source)) == Some((source, x)),
        x.len() == 0 || x == source ==> copy_pair(target, Some(source)) is None,
        copy_pair(target, None) is None,
{
    both_edges_are_taken(w, x, v, Class::White);
}

/// Nothing is copied to a target that has no identifier.
pub proof fn nothing_is_copied_to_nobody(target: Tree, source: Option<Seq<char>>)
    requires
        !(target.get("uid"@) matches Some(Tree::Text(_))),
    ensures
        copy_pair(target, source) is None,
{
    let none = Seq::<char>::empty();
    assert(trim(none) =~= none);
}

/// A new session is mapped to itself, on the channel of its account; it is mapped wherever
/// there is a table for it.
pub proof fn copy_is_mapped_to_its_account(
    has_table: bool,
    new_cid: Seq<char>,
    target_uid: Seq<char>,
    now_secs: i64,
    r: Option<Mapping>,
)
    requires
        mapped(has_table, new_cid, target_uid, now_secs, r),
    ensures
        r is Some <==> has_table,
        r matches Some(m) ==> m.session_id@ == new_cid && m.conversation_id@ == m.session_id@
            && m.msg_channel@ == "convmsg:"@ + target_uid && m.created_at == now_secs,
{
}

} // verus!
