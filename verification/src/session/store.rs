//! Where sessions are kept, and what is told from names and titles.

use vstd::prelude::*;

use crate::edition::{data_place, Edition};
use crate::json::{opt_tree, Json, Tree};
use crate::path::{LocalPath, Place};
use crate::text::{
    begins_with, chars_between, chars_of, ends_with, has_prefix, has_suffix, joined, listed, lower,
    lowered, right_trimmed, same_chars, string_of, texts, trim, trim_right, trimmed_chars, Class,
};

verus! {

/// The name of the file that maps sessions to the cloud, as long as no other is
/// found.
pub open spec fn mapping_text(e: Edition) -> Seq<char> {
    match e {
        Edition::Domestic => "edge-sync-mapping.db"@,
        Edition::International => "edge-sync-mapping-v3.db"@,
    }
}

impl Edition {
    /// The file of the sessions.
    pub fn db_path(self, home: &str) -> (r: LocalPath)
        ensures
            r@ == data_place(self, home@).join("workbuddy.db"@),
    {
        self.data_dir(home).join("workbuddy.db")
    }

    /// The directory of the bodies of sessions.
    pub fn projects_dir(self, home: &str) -> (r: LocalPath)
        ensures
            r@ == data_place(self, home@).join("projects"@),
    {
        self.data_dir(home).join("projects")
    }

    /// The file that maps sessions to the cloud, as long as no other is found.
    pub fn edge_sync_db_path(self, home: &str) -> (r: LocalPath)
        ensures
            r@ == data_place(self, home@).join(mapping_text(self)),
    {
        let name = match self {
            Edition::Domestic => "edge-sync-mapping.db",
            Edition::International => "edge-sync-mapping-v3.db",
        };
        self.data_dir(home).join(name)
    }

    /// Whether the edition has sessions to share: whether the file of its sessions is
    /// there.
    pub fn supports_session_sharing(self, db_present: bool) -> (r: bool)
        ensures
            r == db_present,
    {
        db_present
    }
}

/// The file of the sessions of the domestic edition.
pub fn workbuddy_db_path(home: &str) -> (r: LocalPath)
    ensures
        r@ == data_place(Edition::Domestic, home@).join("workbuddy.db"@),
{
    workbuddy_db_path_for(Edition::Domestic, home)
}

/// The file of the sessions of an edition.
pub fn workbuddy_db_path_for(edition: Edition, home: &str) -> (r: LocalPath)
    ensures
        r@ == data_place(edition, home@).join("workbuddy.db"@),
{
    edition.db_path(home)
}

/// Whether an edition has sessions to share.
pub fn supports_session_sharing_for(edition: Edition, db_present: bool) -> (r: bool)
    ensures
        r == db_present,
{
    edition.supports_session_sharing(db_present)
}

/// A file in the data directory.
pub struct Candidate {
    pub name: String,
    pub is_file: bool,
    /// The names of its tables, if it is a database that can be opened.
    pub tables: Option<Vec<String>>,
    /// When it was changed last.
    pub mtime: u128,
}

/// Whether a database that can be opened has a table for the mapping.
pub fn has_edge_sync_table(tables: Option<&Vec<String>>) -> (r: bool)
    ensures
        r == match tables {
            Some(t) => texts(t@).contains("edge_sync_mapping"@),
            None => false,
        },
{
    match tables {
        Some(t) => listed(t, "edge_sync_mapping"),
        None => false,
    }
}

/// Whether a file may map sessions to the cloud, by its name. Files that belong to a
/// database, such as its log, are not meant.
pub open spec fn mapping_like(name: Seq<char>) -> bool {
    has_prefix(name, "edge-sync-mapping"@) && has_suffix(name, ".db"@)
}

/// Whether a file may map sessions to the cloud, by its name.
pub fn may_be_mapping(name: &str) -> (r: bool)
    ensures
        r == mapping_like(name@),
{
    let v = chars_of(name);
    begins_with(&v, "edge-sync-mapping") && ends_with(&v, ".db")
}

/// Whether a file maps sessions to the cloud.
pub open spec fn is_mapping(c: Candidate) -> bool {
    &&& mapping_like(c.name@)
    &&& c.is_file
    &&& match c.tables {
        Some(t) => texts(t@).contains("edge_sync_mapping"@),
        None => false,
    }
}

/// The file among the first `n` that maps sessions to the cloud and was changed
/// last; the first of several that were changed at the same time.
pub open spec fn newest(cs: Seq<Candidate>, n: nat) -> Option<int>
    decreases n,
{
    if n == 0 {
        None
    } else {
        let before = newest(cs, (n - 1) as nat);
        let c = cs[n - 1];
        if !is_mapping(c) {
            before
        } else {
            match before {
                Some(b) => if c.mtime > cs[b].mtime {
                    Some(n - 1)
                } else {
                    before
                },
                None => Some(n - 1),
            }
        }
    }
}

/// The name of the file that maps sessions to the cloud.
pub open spec fn mapping_name(e: Edition, cs: Seq<Candidate>) -> Seq<char> {
    match newest(cs, cs.len()) {
        Some(i) => cs[i].name@,
        None => mapping_text(e),
    }
}

/// Whether a file maps sessions to the cloud.
fn maps_sessions(c: &Candidate) -> (r: bool)
    ensures
        r == is_mapping(*c),
{
    if !may_be_mapping(c.name.as_str()) || !c.is_file {
        return false;
    }
    match &c.tables {
        Some(t) => has_edge_sync_table(Some(t)),
        None => false,
    }
}

/// The file of the domestic edition that maps sessions to the cloud, given the files
/// of its data directory.
pub fn edge_sync_db_path(home: &str, entries: &Vec<Candidate>) -> (r: LocalPath)
    ensures
        r@ == data_place(Edition::Domestic, home@).join(mapping_name(Edition::Domestic, entries@)),
{
    edge_sync_db_path_for(Edition::Domestic, home, entries)
}

/// The file of an edition that maps sessions to the cloud, given the files of its
/// data directory. Its name changes with the versions of the client, so it is told
/// by what it holds.
pub fn edge_sync_db_path_for(edition: Edition, home: &str, entries: &Vec<Candidate>) -> (r:
    LocalPath)
    ensures
        r@ == data_place(edition, home@).join(mapping_name(edition, entries@)),
{
    let mut best: Option<usize> = None;
    let mut i: usize = 0;
    while i < entries.len()
        invariant
            i <= entries.len(),
            newest(entries@, i as nat) == match best {
                Some(b) => Some(b as int),
                None => None,
            },
            best matches Some(b) ==> b < i,
        decreases entries.len() - i,
    {
        let c = &entries[i];
        if maps_sessions(c) {
            best = match best {
                Some(b) => if c.mtime > entries[b].mtime {
                    Some(i)
                } else {
                    Some(b)
                },
                None => Some(i),
            };
        }
        i = i + 1;
    }
    match best {
        Some(b) => edition.data_dir(home).join(entries[b].name.as_str()),
        None => edition.edge_sync_db_path(home),
    }
}

/// What `newest` finds.
pub(crate) proof fn lemma_newest(cs: Seq<Candidate>, n: nat)
    requires
        n <= cs.len(),
    ensures
        match newest(cs, n) {
            Some(i) => 0 <= i < n && is_mapping(cs[i]) && (forall|k: int|
                0 <= k < n && is_mapping(#[trigger] cs[k]) ==> cs[k].mtime <= cs[i].mtime && (k
                    < i ==> cs[k].mtime < cs[i].mtime)),
            None => forall|k: int| 0 <= k < n ==> !is_mapping(#[trigger] cs[k]),
        },
    decreases n,
{
    if n > 0 {
        lemma_newest(cs, (n - 1) as nat);
    }
}

/// The file that is found was changed last among those that map sessions to the
/// cloud, and its name begins and ends as such names do.
pub proof fn mapping_file_is_the_newest(e: Edition, cs: Seq<Candidate>)
    ensures
        mapping_like(mapping_name(e, cs)),
        newest(cs, cs.len()) matches Some(i) ==> 0 <= i < cs.len() && is_mapping(cs[i])
            && forall|k: int|
            0 <= k < cs.len() && is_mapping(#[trigger] cs[k]) ==> cs[k].mtime <= cs[i].mtime,
        newest(cs, cs.len()) is None ==> forall|k: int|
            0 <= k < cs.len() ==> !is_mapping(#[trigger] cs[k]),
{
    lemma_newest(cs, cs.len());
    reveal_strlit("edge-sync-mapping");
    reveal_strlit(".db");
    reveal_strlit("edge-sync-mapping.db");
    reveal_strlit("edge-sync-mapping-v3.db");
    let a = "edge-sync-mapping.db"@;
    let b = "edge-sync-mapping-v3.db"@;
    assert(a.subrange(0, 17) =~= "edge-sync-mapping"@);
    assert(b.subrange(0, 17) =~= "edge-sync-mapping"@);
    assert(a.subrange(17, 20) =~= ".db"@);
    assert(b.subrange(20, 23) =~= ".db"@);
}

/// The identifier of the account that is logged in.
pub open spec fn logged_in(auth: Option<Tree>) -> Option<Seq<char>> {
    match auth {
        Some(t) => match t.get("account"@) {
            Some(a) => a.text_of("uid"@),
            None => None,
        },
        None => None,
    }
}

/// The identifier of the account that is logged in to the domestic edition, given
/// its login file.
pub fn current_user_uid(auth: Option<&Json>) -> (r: Option<String>)
    ensures
        match r {
            Some(u) => logged_in(opt_tree(auth)) == Some(u@),
            None => logged_in(opt_tree(auth)) is None,
        },
{
    current_user_uid_for(auth)
}

/// The identifier of the account that is logged in, given the login file of an
/// edition.
pub fn current_user_uid_for(auth: Option<&Json>) -> (r: Option<String>)
    ensures
        match r {
            Some(u) => logged_in(opt_tree(auth)) == Some(u@),
            None => logged_in(opt_tree(auth)) is None,
        },
{
    match auth {
        Some(t) => match t.get("account") {
            Some(a) => match a.str_of("uid") {
                Some(u) => Some(u.to_owned()),
                None => None,
            },
            None => None,
        },
        None => None,
    }
}

/// A text without white space at its ends, unless it is blank.
pub open spec fn filled(value: Option<Seq<char>>) -> Option<Seq<char>> {
    match value {
        Some(s) => if trim(s).len() > 0 {
            Some(trim(s))
        } else {
            None
        },
        None => None,
    }
}

/// The text of an optional string.
pub open spec fn opt_text(s: Option<String>) -> Option<Seq<char>> {
    match s {
        Some(x) => Some(x@),
        None => None,
    }
}

/// A text without white space at its ends, unless it is blank.
pub fn nonempty_text(value: Option<String>) -> (r: Option<String>)
    ensures
        opt_text(r) == filled(opt_text(value)),
{
    match value {
        Some(s) => {
            let v = chars_of(s.as_str());
            let t = trimmed_chars(&v, Class::White);
            if t.len() > 0 {
                Some(string_of(&t))
            } else {
                None
            }
        },
        None => None,
    }
}

/// The title under which a session is shown.
pub open spec fn shown_title(title: Option<Seq<char>>, custom: Option<Seq<char>>) -> Seq<char> {
    match filled(custom) {
        Some(s) => s,
        None => match filled(title) {
            Some(s) => s,
            None => "(无标题)"@,
        },
    }
}

/// The title under which a session is shown: the one that the user gave, else its
/// own.
pub fn session_display_title(title: Option<String>, custom_title: Option<String>) -> (r: String)
    ensures
        r@ == shown_title(opt_text(title), opt_text(custom_title)),
{
    match nonempty_text(custom_title) {
        Some(s) => s,
        None => match nonempty_text(title) {
            Some(s) => s,
            None => "(无标题)".to_owned(),
        },
    }
}

/// What follows the last separator of a path.
pub open spec fn last_name(s: Seq<char>) -> Seq<char>
    decreases s.len(),
{
    if s.len() == 0 || Class::Slash.holds(s.last()) {
        Seq::empty()
    } else {
        last_name(s.drop_last()).push(s.last())
    }
}

/// Whether a workspace is bound to a channel of its account: whether its directory
/// is named so, in upper or lower case.
pub open spec fn claw(cwd: Seq<char>) -> bool {
    lower(last_name(trim_right(trim(cwd), Class::Slash))) == "claw"@
}

/// What follows the last separator of a path.
fn last_name_of(v: &Vec<char>) -> (r: Vec<char>)
    ensures
        r@ == last_name(v@),
{
    let mut i: usize = v.len();
    assert(v@.take(v@.len() as int) =~= v@);
    assert(last_name(v@) + Seq::<char>::empty() =~= last_name(v@));
    assert(v@.skip(v@.len() as int) =~= Seq::<char>::empty());
    while i > 0 && !Class::Slash.has(v[i - 1])
        invariant
            i <= v.len(),
            last_name(v@) == last_name(v@.take(i as int)) + v@.skip(i as int),
        decreases i,
    {
        proof {
            let t = v@.take(i as int);
            assert(t.last() == v@[i - 1]);
            assert(t.drop_last() =~= v@.take(i - 1));
            assert(last_name(t) + v@.skip(i as int) =~= last_name(t.drop_last()) + v@.skip(i - 1));
        }
        i = i - 1;
    }
    assert(last_name(v@.take(i as int)) =~= Seq::<char>::empty());
    let r = chars_between(v, i, v.len());
    assert(r@ =~= v@.skip(i as int));
    assert(last_name(v@) =~= r@);
    r
}

/// Whether a workspace is bound to a channel of its account, so that another account
/// could not use its sessions.
pub fn is_claw_workspace(cwd: &str) -> (r: bool)
    ensures
        r == claw(cwd@),
{
    let v = chars_of(cwd);
    let t = trimmed_chars(&v, Class::White);
    let u = right_trimmed(&t, Class::Slash);
    let n = last_name_of(&u);
    let l = lowered(&n);
    let w = chars_of("claw");
    same_chars(&l, &w)
}

/// The directory that a file is in.
pub open spec fn parent(p: Place) -> Place {
    Place { base: p.base, parts: p.parts.drop_last() }
}

/// The data directory, given the file of the sessions. A file has a name in the
/// directory that is its base, or further on.
pub fn data_dir_of(db: &LocalPath) -> (r: LocalPath)
    requires
        db@.parts.len() > 0,
    ensures
        r@ == parent(db@),
{
    let n = db.parts.len();
    let mut p = LocalPath::at(db.base.as_str());
    let mut i: usize = 0;
    while i < n - 1
        invariant
            n == db.parts.len(),
            n > 0,
            i <= n - 1,
            p@.base == db@.base,
            p@.parts == db@.parts.take(i as int),
        decreases n - i,
    {
        assert(db@.parts.take(i + 1) =~= db@.parts.take(i as int).push(db@.parts[i as int]));
        p = p.join(db.parts[i].as_str());
        i = i + 1;
    }
    assert(db@.parts.drop_last() =~= db@.parts.take(n - 1));
    p
}

/// A directory in the directory of all bodies.
pub struct Space {
    pub name: String,
    /// The names of its files.
    pub files: Vec<String>,
}

/// What is in the directory of the bodies of sessions.
pub struct Bodies {
    /// The names of its files.
    pub files: Vec<String>,
    /// Its directories.
    pub spaces: Vec<Space>,
}

/// The first directory among those from `i` on that holds the file `file`.
pub open spec fn space_with(spaces: Seq<Space>, file: Seq<char>, i: int) -> Option<int>
    decreases spaces.len() - i,
{
    if i < 0 || i >= spaces.len() {
        None
    } else if texts(spaces[i].files@).contains(file) {
        Some(i)
    } else {
        space_with(spaces, file, i + 1)
    }
}

/// Where the body of a session is: in the directory of all bodies itself, else in
/// the first of its directories that holds it.
pub open spec fn body_place(projects: Place, bodies: Bodies, cid: Seq<char>) -> Option<Place> {
    let file = cid + ".jsonl"@;
    if texts(bodies.files@).contains(file) {
        Some(projects.join(file))
    } else {
        match space_with(bodies.spaces@, file, 0) {
            Some(i) => Some(projects.join(bodies.spaces@[i].name@).join(file)),
            None => None,
        }
    }
}

/// The file of the body of a session in the directory `projects`, given what is in
/// that directory.
pub fn find_project_jsonl_in(projects: &LocalPath, bodies: &Bodies, cid: &str) -> (r: Option<
    LocalPath,
>)
    ensures
        match r {
            Some(p) => body_place(projects@, *bodies, cid@) == Some(p@),
            None => body_place(projects@, *bodies, cid@) is None,
        },
{
    let file = joined(cid, ".jsonl");
    if listed(&bodies.files, file.as_str()) {
        return Some(projects.copy().join(file.as_str()));
    }
    let mut i: usize = 0;
    while i < bodies.spaces.len()
        invariant
            i <= bodies.spaces.len(),
            file@ == cid@ + ".jsonl"@,
            !texts(bodies.files@).contains(file@),
            space_with(bodies.spaces@, file@, 0) == space_with(bodies.spaces@, file@, i as int),
        decreases bodies.spaces.len() - i,
    {
        let space = &bodies.spaces[i];
        if listed(&space.files, file.as_str()) {
            return Some(projects.copy().join(space.name.as_str()).join(file.as_str()));
        }
        i = i + 1;
    }
    None
}

/// The file of the body of a session of an edition.
pub fn find_project_jsonl_for(edition: Edition, home: &str, bodies: &Bodies, cid: &str) -> (r:
    Option<LocalPath>)
    ensures
        ({
            let found = body_place(data_place(edition, home@).join("projects"@), *bodies, cid@);
            match r {
                Some(p) => found == Some(p@),
                None => found is None,
            }
        }),
{
    let projects = edition.projects_dir(home);
    find_project_jsonl_in(&projects, bodies, cid)
}

/// The files that are saved before the sessions are changed: the database, its log
/// and the index of the log.
pub fn backup_workbuddy_db_for(db_present: bool) -> (r: Vec<&'static str>)
    ensures
        r@.map_values(|s: &'static str| s@) == if db_present {
            seq!["workbuddy.db"@, "workbuddy.db-wal"@, "workbuddy.db-shm"@]
        } else {
            Seq::empty()
        },
{
    if !db_present {
        let r: Vec<&'static str> = Vec::new();
        assert(r@.map_values(|s: &'static str| s@) =~= Seq::<Seq<char>>::empty());
        return r;
    }
    let r = vec!["workbuddy.db", "workbuddy.db-wal", "workbuddy.db-shm"];
    assert(r@.map_values(|s: &'static str| s@) =~= seq![
        "workbuddy.db"@,
        "workbuddy.db-wal"@,
        "workbuddy.db-shm"@,
    ]);
    r
}

} // verus!
