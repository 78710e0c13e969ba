//! Where files of sessions are found, and which workspaces are bound to a channel.

use vstd::prelude::*;

use crate::edition::{data_place, Edition};
use crate::json::Tree;
use crate::path::Place;
use crate::text::{has_prefix, has_suffix, lower, texts, Class};
use crate::text_laws::{all_in, both_edges_are_taken, right_edge_is_taken};
use super::list::has_body;
use super::store::{
    body_place, claw, is_mapping, last_name, lemma_newest, logged_in, mapping_name, mapping_text,
    newest, parent, space_with, Bodies, Candidate, Space,
};

verus! {

/// The name after the last separator.
proof fn lemma_last_name(a: Seq<char>, name: Seq<char>)
    requires
        a.len() > 0 ==> Class::Slash.holds(a.last()),
        forall|i: int| 0 <= i < name.len() ==> !Class::Slash.holds(#[trigger] name[i]),
    ensures
        last_name(a + name) == name,
    decreases name.len(),
{
    if name.len() == 0 {
        assert(a + name =~= a);
    } else {
        assert((a + name).last() == name[name.len() - 1]);
        assert((a + name).drop_last() =~= a + name.drop_last());
        lemma_last_name(a, name.drop_last());
        assert(name.drop_last().push(name.last()) =~= name);
    }
}

/// A workspace is bound to a channel just if its directory, the last name of its path, is
/// `claw` in upper or lower case: white space around the path and separators after the name
/// do not matter, nor does what comes before it.
pub proof fn last_directory_decides(
    w: Seq<char>,
    a: Seq<char>,
    name: Seq<char>,
    t: Seq<char>,
    v: Seq<char>,
)
    requires
        all_in(w, Class::White),
        all_in(v, Class::White),
        all_in(t, Class::Slash),
        a.len() > 0 ==> Class::Slash.holds(a.last()) && !Class::White.holds(a[0]),
        name.len() > 0,
        !Class::White.holds(name[0]),
        !Class::White.holds(name.last()),
        forall|i: int| 0 <= i < name.len() ==> !Class::Slash.holds(#[trigger] name[i]),
    ensures
        claw(w + (a + name + t) + v) <==> lower(name) == "claw"@,
{
    let x = a + name + t;
    assert(!Class::White.holds(x[0])) by {
        if a.len() > 0 {
            assert(x[0] == a[0]);
        } else {
            assert(x[0] == name[0]);
        }
    }
    assert(!Class::White.holds(x.last())) by {
        if t.len() > 0 {
            assert(x.last() == t[t.len() - 1]);
        } else {
            assert(x.last() == name.last());
        }
    }
    both_edges_are_taken(w, x, v, Class::White);
    assert(!Class::Slash.holds(name[name.len() - 1]));
    assert((a + name).last() == name.last());
    right_edge_is_taken(a + name, t, Class::Slash);
    lemma_last_name(a, name);
}

/// A path without a name is not bound to a channel.
pub proof fn path_without_a_name_is_free(w: Seq<char>, t: Seq<char>, v: Seq<char>)
    requires
        all_in(w, Class::White),
        all_in(v, Class::White),
        all_in(t, Class::Slash),
    ensures
        !claw(w + t + v),
{
    let none = Seq::<char>::empty();
    reveal_strlit("claw");
    assert("claw"@.len() == 4);
    if t.len() > 0 {
        assert(Class::Slash.holds(t[0]));
        assert(Class::Slash.holds(t[t.len() - 1]));
    }
    both_edges_are_taken(w, t, v, Class::White);
    right_edge_is_taken(none, t, Class::Slash);
    assert(none + t =~= t);
    assert(lower(last_name(none)).len() == 0);
}

/// The file that maps sessions to the cloud is, of those that do, the one that was changed
/// last, and of several the first; where there is none it has the name that the edition
/// gives it.
pub proof fn latest_mapping_counts(e: Edition, cs: Seq<Candidate>, i: int)
    requires
        0 <= i < cs.len(),
        is_mapping(cs[i]),
        forall|k: int|
            0 <= k < cs.len() && is_mapping(#[trigger] cs[k]) && k != i ==> cs[k].mtime
                < cs[i].mtime || (cs[k].mtime == cs[i].mtime && k > i),
    ensures
        mapping_name(e, cs) == cs[i].name@,
{
    lemma_newest(cs, cs.len());
    match newest(cs, cs.len()) {
        Some(j) => {
            assert(is_mapping(cs[j]));
            assert(is_mapping(cs[i]));
        },
        None => {
            assert(!is_mapping(cs[i]));
        },
    }
}

/// Where no file maps sessions to the cloud, the edition names it.
pub proof fn edition_names_the_mapping(e: Edition, cs: Seq<Candidate>)
    requires
        forall|k: int| 0 <= k < cs.len() ==> !is_mapping(#[trigger] cs[k]),
    ensures
        mapping_name(e, cs) == mapping_text(e),
        e == Edition::Domestic ==> mapping_text(e) == "edge-sync-mapping.db"@,
        e == Edition::International ==> mapping_text(e) == "edge-sync-mapping-v3.db"@,
{
    lemma_newest(cs, cs.len());
}

/// A file maps sessions to the cloud just if it is a file with such a name that has a table
/// for it.
pub proof fn mapping_is_told_by_its_table(c: Candidate)
    ensures
        is_mapping(c) <==> c.is_file && has_prefix(c.name@, "edge-sync-mapping"@) && has_suffix(
            c.name@,
            ".db"@,
        ) && (c.tables matches Some(t) && texts(t@).contains("edge_sync_mapping"@)),
{
}

/// Logged in is the account that the login file names.
pub proof fn login_file_names_the_account(t: Tree, a: Tree)
    requires
        t.get("account"@) == Some(a),
    ensures
        a.get("uid"@) matches Some(Tree::Text(u)) ==> logged_in(Some(t)) == Some(u),
        !(a.get("uid"@) matches Some(Tree::Text(_))) ==> logged_in(Some(t)) is None,
        logged_in(None) is None,
{
}

/// The directory of a file in a directory is that directory.
pub proof fn file_is_in_its_directory(dir: Place, name: Seq<char>)
    ensures
        parent(dir.join(name)) == dir,
        dir.join(name).base == dir.base,
        dir.join(name).parts == dir.parts.push(name),
{
    assert(dir.parts.push(name).drop_last() =~= dir.parts);
    assert(parent(dir.join(name)) =~= dir);
}

/// The first directory that holds a file.
proof fn lemma_space(spaces: Seq<Space>, file: Seq<char>, i: int)
    requires
        0 <= i,
    ensures
        match space_with(spaces, file, i) {
            Some(k) => i <= k < spaces.len() && texts(spaces[k].files@).contains(file) && forall|
                j: int,
            |
                i <= j < k ==> !texts((#[trigger] spaces[j]).files@).contains(file),
            None => forall|j: int|
                i <= j < spaces.len() ==> !texts((#[trigger] spaces[j]).files@).contains(file),
        },
    decreases spaces.len() - i,
{
    if i < spaces.len() && !texts(spaces[i].files@).contains(file) {
        lemma_space(spaces, file, i + 1);
    }
}

/// The body of a session is the file named after it: the one in the directory of all bodies,
/// or else the one in the first of its directories that has one. A session has a history
/// just if there is such a file.
pub proof fn body_is_named_after_its_session(
    projects: Place,
    bodies: Bodies,
    cid: Seq<char>,
    i: int,
)
    ensures
        ({
            let file = cid + ".jsonl"@;
            let here = texts(bodies.files@).contains(file);
            let spaces = bodies.spaces@;
            &&& here ==> body_place(projects, bodies, cid) == Some(projects.join(file))
            &&& !here && 0 <= i < spaces.len() && texts(spaces[i].files@).contains(file) && (forall|
                j: int,
            |
                0 <= j < i ==> !texts((#[trigger] spaces[j]).files@).contains(file)) ==> body_place(
                projects,
                bodies,
                cid,
            ) == Some(projects.join(spaces[i].name@).join(file))
            &&& !here && (forall|j: int|
                0 <= j < spaces.len() ==> !texts((#[trigger] spaces[j]).files@).contains(file))
                ==> body_place(projects, bodies, cid) is None
        }),
{
    let file = cid + ".jsonl"@;
    let spaces = bodies.spaces@;
    lemma_space(spaces, file, 0);
    if 0 <= i < spaces.len() && texts(spaces[i].files@).contains(file) && (forall|j: int|
        0 <= j < i ==> !texts((#[trigger] spaces[j]).files@).contains(file)) {
        match space_with(spaces, file, 0) {
            Some(k) => {
                if k < i {
                    assert(!texts(spaces[k].files@).contains(file));
                } else if i < k {
                    assert(!texts(spaces[i].files@).contains(file));
                }
            },
            None => {
                assert(!texts(spaces[i].files@).contains(file));
            },
        }
    }
}

/// A session has a history just if its body is in the directory of its edition.
pub proof fn history_is_the_body(e: Edition, home: Seq<char>, bodies: Bodies, cid: Seq<char>)
    ensures
        has_body(data_place(e, home), Some(bodies), cid) <==> body_place(
            data_place(e, home).join("projects"@),
            bodies,
            cid,
        ) is Some,
        !has_body(data_place(e, home), None, cid),
{
}

} // verus!
