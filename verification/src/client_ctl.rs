//! Finding, watching, closing and starting the client of an edition.

use vstd::prelude::*;

use crate::edition::{places, Edition};
use crate::path::{first_found, first_true, place_at, LocalPath, Place};
use crate::text::{
    chars_between, chars_of, decode_lossy, find, joined, left_trimmed, lemma_find, lines, lines_of,
    lower, lowered, occurs_at, opt_str, position_from, same_chars, texts, trim_left, utf8_lossy,
    views, Class,
};
use crate::text_laws::{all_in, first_position_is_found, left_edge_is_taken};

verus! {

/// How long it is waited between two looks at whether the client is gone, in
/// milliseconds.
pub const WAIT_STEP_MS: u64 = 500;

/// The name of the client's program.
pub open spec fn exe_text(e: Edition) -> Seq<char> {
    match e {
        Edition::Domestic => "WorkBuddy.exe"@,
        Edition::International => "WorkBuddyAI.exe"@,
    }
}

/// The name of the client's program.
pub fn exe_name(edition: Edition) -> (r: &'static str)
    ensures
        r@ == exe_text(edition),
{
    match edition {
        Edition::Domestic => "WorkBuddy.exe",
        Edition::International => "WorkBuddyAI.exe",
    }
}

/// Which drives there are.
pub struct Drives {
    pub c: bool,
    pub d: bool,
    pub e: bool,
    pub f: bool,
    pub g: bool,
}

/// The programs that may be the client on a drive, if it is there.
pub open spec fn on_drive(e: Edition, there: bool, root: Seq<char>) -> Seq<Place> {
    if there {
        seq![
            place_at(root).join("AdobeAll"@).join(e.process_text()).join(exe_text(e)),
            place_at(root).join(e.process_text()).join(exe_text(e)),
        ]
    } else {
        Seq::empty()
    }
}

/// The programs that may be the client under the directory for the data of local
/// programs, where the system has one.
pub open spec fn in_local(e: Edition, local: Option<Seq<char>>) -> Seq<Place> {
    match local {
        Some(l) => seq![
            place_at(l).join("Programs"@).join(e.process_text()).join(exe_text(e)),
            place_at(l).join(e.process_text()).join(exe_text(e)),
        ],
        None => Seq::empty(),
    }
}

/// The programs that may be the client, in the order in which they are looked at.
pub open spec fn exe_places(e: Edition, local: Option<Seq<char>>, drives: Drives) -> Seq<Place> {
    in_local(e, local) + on_drive(e, drives.c, "C:\\"@) + on_drive(e, drives.d, "D:\\"@)
        + on_drive(e, drives.e, "E:\\"@) + on_drive(e, drives.f, "F:\\"@) + on_drive(
        e,
        drives.g,
        "G:\\"@,
    )
}

/// Adds the programs that may be the client on a drive.
fn push_drive(out: &mut Vec<LocalPath>, e: Edition, there: bool, root: &str)
    ensures
        places(final(out)@) == places(old(out)@) + on_drive(e, there, root@),
{
    let ghost before = out@;
    if there {
        let exe = exe_name(e);
        out.push(LocalPath::at(root).join("AdobeAll").join(e.process_name()).join(exe));
        out.push(LocalPath::at(root).join(e.process_name()).join(exe));
    }
    assert(places(out@) =~= places(before) + on_drive(e, there, root@));
}

/// The programs that may be the client, in the order in which they are looked at.
pub fn candidate_exes(edition: Edition, local: Option<&str>, drives: &Drives) -> (r: Vec<LocalPath>)
    ensures
        places(r@) == exe_places(edition, opt_str(local), *drives),
{
    let mut out: Vec<LocalPath> = Vec::new();
    let exe = exe_name(edition);
    match local {
        Some(l) => {
            out.push(LocalPath::at(l).join("Programs").join(edition.process_name()).join(exe));
            out.push(LocalPath::at(l).join(edition.process_name()).join(exe));
        },
        None => {},
    }
    assert(places(out@) =~= in_local(edition, opt_str(local)));
    push_drive(&mut out, edition, drives.c, "C:\\");
    push_drive(&mut out, edition, drives.d, "D:\\");
    push_drive(&mut out, edition, drives.e, "E:\\");
    push_drive(&mut out, edition, drives.f, "F:\\");
    push_drive(&mut out, edition, drives.g, "G:\\");
    out
}

/// The first of the candidates that is a file. `files` tells of each of them whether it is
/// one.
pub open spec fn first_file(candidates: Seq<Place>, files: Seq<bool>) -> Option<Place> {
    match first_true(files) {
        Some(i) => if i < candidates.len() {
            Some(candidates[i])
        } else {
            None
        },
        None => None,
    }
}

/// The client's program: the first of the candidates that is a file. `files` tells of
/// each of them whether it is one.
pub fn find_client_exe(candidates: &Vec<LocalPath>, files: &Vec<bool>) -> (r: Option<LocalPath>)
    ensures
        first_file(places(candidates@), files@) == match r {
            Some(p) => Some(p@),
            None => None,
        },
{
    match first_found(files) {
        Some(i) => if i < candidates.len() {
            Some(candidates[i].copy())
        } else {
            None
        },
        None => None,
    }
}

/// Every program that may be the client has the name of the client's program.
pub proof fn candidates_have_the_name(e: Edition, local: Option<Seq<char>>, drives: Drives, i: int)
    requires
        0 <= i < exe_places(e, local, drives).len(),
    ensures
        exe_places(e, local, drives)[i].parts.len() > 0,
        exe_places(e, local, drives)[i].parts.last() == exe_text(e),
{
    let a = in_local(e, local);
    let b = on_drive(e, drives.c, "C:\\"@);
    let c = on_drive(e, drives.d, "D:\\"@);
    let d = on_drive(e, drives.e, "E:\\"@);
    let f = on_drive(e, drives.f, "F:\\"@);
    let g = on_drive(e, drives.g, "G:\\"@);
    let all = a + b + c + d + f + g;
    let n1 = a.len() + b.len();
    let n2 = n1 + c.len();
    let n3 = n2 + d.len();
    let n4 = n3 + f.len();
    if i < a.len() {
        assert(all[i] == a[i]);
    } else if i < n1 {
        assert(all[i] == b[i - a.len()]);
    } else if i < n2 {
        assert(all[i] == c[i - n1]);
    } else if i < n3 {
        assert(all[i] == d[i - n2]);
    } else if i < n4 {
        assert(all[i] == f[i - n3]);
    } else {
        assert(all[i] == g[i - n4]);
    }
}

/// The arguments that ask the system for processes with the name of the client's
/// program, as lines of values in quotes.
pub fn query_args(edition: Edition) -> (r: Vec<String>)
    ensures
        texts(r@) == seq![
            "/FI"@,
            "IMAGENAME eq "@ + exe_text(edition),
            "/FO"@,
            "CSV"@,
            "/NH"@,
        ],
{
    let filter = joined("IMAGENAME eq ", exe_name(edition));
    let r = vec!["/FI".to_owned(), filter, "/FO".to_owned(), "CSV".to_owned(), "/NH".to_owned()];
    assert(texts(r@) =~= seq![
        "/FI"@,
        "IMAGENAME eq "@ + exe_text(edition),
        "/FO"@,
        "CSV"@,
        "/NH"@,
    ]);
    r
}

/// The arguments that end the processes of the client, by force or not.
pub fn kill_args(edition: Edition, force: bool) -> (r: Vec<String>)
    ensures
        texts(r@) == if force {
            seq!["/IM"@, exe_text(edition), "/T"@, "/F"@]
        } else {
            seq!["/IM"@, exe_text(edition), "/T"@]
        },
{
    let mut r = vec!["/IM".to_owned(), exe_name(edition).to_owned(), "/T".to_owned()];
    if force {
        r.push("/F".to_owned());
        assert(texts(r@) =~= seq!["/IM"@, exe_text(edition), "/T"@, "/F"@]);
    } else {
        assert(texts(r@) =~= seq!["/IM"@, exe_text(edition), "/T"@]);
    }
    r
}

/// The first value of a line of values in quotes.
pub open spec fn first_value(line: Seq<char>) -> Seq<char> {
    let head = match find(line, "\",\""@) {
        Some(k) => line.take(k),
        None => line,
    };
    trim_left(head, Class::Quote)
}

/// Whether one of the lines begins with the value `name`, in upper or lower case.
pub open spec fn among_lines(ls: Seq<Seq<char>>, name: Seq<char>) -> bool {
    exists|i: int| 0 <= i < ls.len() && lower(first_value(#[trigger] ls[i])) == lower(name)
}

/// The first value of a line of values in quotes.
fn first_value_of(line: &Vec<char>) -> (r: Vec<char>)
    ensures
        r@ == first_value(line@),
{
    let sep = chars_of("\",\"");
    let head = match position_from(line, &sep, 0) {
        Some(k) => {
            let h = chars_between(line, 0, k);
            assert(h@ =~= line@.take(k as int));
            h
        },
        None => {
            let h = chars_between(line, 0, line.len());
            assert(h@ =~= line@);
            h
        },
    };
    left_trimmed(&head, Class::Quote)
}

/// Whether a list of processes, as lines of values in quotes, holds one whose first
/// value is `name`, in upper or lower case.
pub fn lists_process(text: &str, name: &str) -> (r: bool)
    ensures
        r == among_lines(lines(text@), name@),
{
    let v = chars_of(text);
    let ls = lines_of(&v);
    let n = chars_of(name);
    let want = lowered(&n);
    let ghost all = lines(text@);
    let mut i: usize = 0;
    while i < ls.len()
        invariant
            i <= ls.len(),
            all == views(ls@),
            all == lines(text@),
            want@ == lower(name@),
            forall|k: int| 0 <= k < i ==> lower(first_value(#[trigger] all[k])) != lower(name@),
        decreases ls.len() - i,
    {
        let first = first_value_of(&ls[i]);
        let l = lowered(&first);
        assert(all[i as int] == ls@[i as int]@);
        if same_chars(&l, &want) {
            return true;
        }
        i = i + 1;
    }
    false
}

/// Whether the client is running, given what the system said of its processes; not if
/// the system could not be asked. Names are compared as a whole, since the name of
/// one edition's process begins with that of the other.
pub fn is_running(edition: Edition, output: Option<&[u8]>) -> (r: bool)
    ensures
        r == match output {
            Some(b) => among_lines(lines(utf8_lossy(b@)), exe_text(edition)),
            None => false,
        },
{
    match output {
        Some(b) => {
            let text = decode_lossy(b);
            lists_process(text.as_str(), exe_name(edition))
        },
        None => false,
    }
}

/// How far closing the client has come.
#[derive(Clone, Copy, Debug, PartialEq, Eq, Structural)]
pub enum Closing {
    /// Nothing was done yet.
    Begun,
    /// The client was asked to close.
    Asked,
    /// The client was ended by force.
    Forced,
}

/// What is done next about closing the client.
pub enum CloseAct {
    /// The client is asked to close.
    Ask,
    /// The client is ended by force.
    Force,
    /// It is waited for a moment.
    Wait,
    /// The client is closed.
    Closed,
    /// The client cannot be closed; a message.
    Failed(String),
}

/// The message about a client that cannot be closed.
pub open spec fn unclosable(e: Edition) -> Seq<char> {
    "无法关闭 "@ + e.process_text() + "，请手动完全退出后重试"@
}

/// Whether `r` is what follows when closing the client has come to `state`, given whether it
/// is still running and whether the time given is over.
pub open spec fn closing_step(
    edition: Edition,
    state: Closing,
    running: bool,
    overdue: bool,
    r: (Closing, CloseAct),
) -> bool {
    if !running {
        r.0 == state && r.1 is Closed
    } else {
        match state {
            Closing::Begun => r.0 == Closing::Asked && r.1 is Ask,
            Closing::Asked => if overdue {
                r.0 == Closing::Forced && r.1 is Force
            } else {
                r.0 == state && r.1 is Wait
            },
            Closing::Forced => r.0 == state && (if overdue {
                match r.1 {
                    CloseAct::Failed(e) => e@ == unclosable(edition),
                    _ => false,
                }
            } else {
                r.1 is Wait
            }),
        }
    }
}

/// Decides what is done next about closing the client: it is asked first, then ended
/// by force, and given time after each. `running` tells whether it is still running,
/// `overdue` whether the time given is over.
pub fn close(edition: Edition, state: Closing, running: bool, overdue: bool) -> (r: (
    Closing,
    CloseAct,
))
    ensures
        closing_step(edition, state, running, overdue, r),
{
    if !running {
        return (state, CloseAct::Closed);
    }
    match state {
        Closing::Begun => (Closing::Asked, CloseAct::Ask),
        Closing::Asked => if overdue {
            (Closing::Forced, CloseAct::Force)
        } else {
            (state, CloseAct::Wait)
        },
        Closing::Forced => if overdue {
            let a = joined("无法关闭 ", edition.process_name());
            (state, CloseAct::Failed(joined(a.as_str(), "，请手动完全退出后重试")))
        } else {
            (state, CloseAct::Wait)
        },
    }
}

/// The program to start, or a message where there is none.
pub fn launch(edition: Edition, found: Option<LocalPath>) -> (r: Result<LocalPath, String>)
    ensures
        match found {
            Some(p) => r is Ok && r->Ok_0 == p,
            None => r is Err && r->Err_0@ == "未找到 "@ + edition.process_text()
                + " 程序。请先手动打开一次，或确认已安装。"@,
        },
{
    match found {
        Some(p) => Ok(p),
        None => {
            let a = joined("未找到 ", edition.process_name());
            Err(joined(a.as_str(), " 程序。请先手动打开一次，或确认已安装。"))
        },
    }
}

/// The message about a program that could not be started.
pub fn launch_failure(shown: &str, error: &str) -> (r: String)
    ensures
        r@ == "启动 "@ + shown@ + " 失败: "@ + error@,
{
    let a = joined("启动 ", shown);
    let b = joined(a.as_str(), " 失败: ");
    joined(b.as_str(), error)
}

/// The process of one edition is never taken for that of the other.
pub proof fn processes_are_told_apart(line: Seq<char>, a: Edition, b: Edition)
    requires
        lower(first_value(line)) == lower(exe_text(a)),
        lower(first_value(line)) == lower(exe_text(b)),
    ensures
        a == b,
{
    reveal_strlit("WorkBuddy.exe");
    reveal_strlit("WorkBuddyAI.exe");
    assert(lower("WorkBuddy.exe"@).len() == 13);
    assert(lower("WorkBuddyAI.exe"@).len() == 15);
}

/// The client counts as closed just if it is not running, whatever was done about it before.
pub proof fn closed_means_not_running(
    edition: Edition,
    state: Closing,
    running: bool,
    overdue: bool,
    r: (Closing, CloseAct),
)
    requires
        closing_step(edition, state, running, overdue, r),
    ensures
        r.1 is Closed <==> !running,
{
}

/// The client is asked before it is ended by force, is given its time after each, and is
/// given up on only after both.
pub proof fn force_comes_after_asking(
    edition: Edition,
    state: Closing,
    running: bool,
    overdue: bool,
    r: (Closing, CloseAct),
)
    requires
        closing_step(edition, state, running, overdue, r),
    ensures
        r.1 is Ask <==> running && state == Closing::Begun,
        r.1 is Force <==> running && overdue && state == Closing::Asked,
        r.1 is Failed <==> running && overdue && state == Closing::Forced,
        r.1 is Wait <==> running && !overdue && state != Closing::Begun,
        r.1 is Ask ==> r.0 == Closing::Asked,
        r.1 is Force ==> r.0 == Closing::Forced,
        !(r.1 is Ask) && !(r.1 is Force) ==> r.0 == state,
        r.1 matches CloseAct::Failed(e) ==> e@ == "无法关闭 "@ + edition.process_text()
            + "，请手动完全退出后重试"@,
{
}

/// The first value of a line is what stands between the first two quotes; in a line without
/// quotes it is the line. Names do not begin with a comma.
pub proof fn first_value_is_in_quotes(name: Seq<char>, rest: Seq<char>)
    requires
        forall|i: int| 0 <= i < name.len() ==> name[i] != '"',
        name.len() > 0 ==> name[0] != ',',
    ensures
        first_value(seq!['"'] + name + "\",\""@ + rest) == name,
        first_value(name) == name,
{
    reveal_strlit("\",\"");
    let sep = "\",\""@;
    assert(sep.len() == 3);
    assert(sep[0] == '"');
    assert(sep[1] == ',');
    let line = seq!['"'] + name + sep + rest;
    let n = name.len() as int;
    lemma_find(line, sep, 0);
    assert(line.subrange(n + 1, n + 4) =~= sep);
    assert(occurs_at(line, sep, n + 1));
    assert forall|j: int| 0 <= j < n + 1 implies !occurs_at(line, sep, j) by {
        if occurs_at(line, sep, j) {
            let part = line.subrange(j, j + 3);
            assert(part[0] == line[j]);
            assert(part[1] == line[j + 1]);
            if j > 0 {
                assert(line[j] == name[j - 1]);
            } else if n > 0 {
                assert(line[1] == name[0]);
            } else {
                assert(line[1] == sep[0]);
            }
        }
    }
    let k = find(line, sep)->0;
    assert(k == n + 1);
    assert(line.take(n + 1) =~= seq!['"'] + name);
    assert(all_in(seq!['"'], Class::Quote));
    left_edge_is_taken(seq!['"'], name, Class::Quote);
    lemma_find(name, sep, 0);
    if let Some(m) = find(name, sep) {
        assert(name.subrange(m, m + 3)[0] == name[m]);
    }
    let none = Seq::<char>::empty();
    left_edge_is_taken(none, name, Class::Quote);
    assert(none + name =~= name);
}

/// The client of an edition is running just if a line names its program, in upper or lower
/// case, as its first value.
pub proof fn running_is_told_by_a_line(ls: Seq<Seq<char>>, l: Seq<char>, name: Seq<char>)
    ensures
        among_lines(ls.push(l), name) <==> among_lines(ls, name) || lower(first_value(l)) == lower(
            name,
        ),
        !among_lines(Seq::empty(), name),
{
    let all = ls.push(l);
    if among_lines(ls, name) {
        let i = choose|i: int|
            0 <= i < ls.len() && lower(first_value(#[trigger] ls[i])) == lower(name);
        assert(all[i] == ls[i]);
    }
    if lower(first_value(l)) == lower(name) {
        assert(all[ls.len() as int] == l);
    }
    if among_lines(all, name) {
        let i = choose|i: int|
            0 <= i < all.len() && lower(first_value(#[trigger] all[i])) == lower(name);
        if i < ls.len() {
            assert(ls[i] == all[i]);
        }
    }
}

/// The program that is found is the first of the candidates that is a file; none is found
/// only if none is.
pub proof fn first_program_is_found(candidates: Seq<Place>, files: Seq<bool>, i: int)
    requires
        candidates.len() == files.len(),
    ensures
        0 <= i < files.len() && files[i] && (forall|j: int| 0 <= j < i ==> !files[j]) ==> first_file(
            candidates,
            files,
        ) == Some(candidates[i]),
        (forall|j: int| 0 <= j < files.len() ==> !files[j]) ==> first_file(candidates, files) is None,
{
    first_position_is_found(files);
    if 0 <= i < files.len() && files[i] && (forall|j: int| 0 <= j < i ==> !files[j]) {
        match first_true(files) {
            Some(k) => {
                if k < i {
                    assert(!files[k]);
                } else if i < k {
                    assert(!files[i]);
                }
            },
            None => {},
        }
    }
}

} // verus!
