//! What a switch asks for and reports, told by what was asked of it and what has happened.

use vstd::prelude::*;

use crate::edition::{account_edition, Edition};
use crate::json::{kept, Tree};
use crate::switch::{
    advance, awaited, course_after, deed_after, happened, in_order, lemma_happened, lemma_stage,
    reach, shows, Act, Deed, Event, Plan, Request, Sign, Stage,
};

verus! {

/// What an event of sharing reports: the report, or an object with the error.
pub open spec fn share_told(e: Event) -> Option<Tree> {
    match e {
        Event::Shared(Ok(j)) => Some(j.tree()),
        Event::Shared(Err(m)) => Some(
            Tree::Dict(Map::<Seq<char>, Tree>::empty().insert("error"@, Tree::Text(m@))),
        ),
        _ => None,
    }
}

/// What an event of copying reports.
pub open spec fn copy_told(e: Event) -> Option<Tree> {
    match e {
        Event::Copied(report) => kept(report),
        _ => None,
    }
}

/// Whether an event says that there is an account, and of the edition asked for.
pub open spec fn finds(p: Plan, e: Event) -> bool {
    e matches Event::Account(Some(found)) && account_edition(found.0.tree()) == p.edition
}

/// Whether an event ends a switch without success.
pub open spec fn stops(p: Plan, e: Event) -> bool {
    match e {
        Event::Account(_) => !finds(p, e),
        Event::Closed(r) => r is Err,
        Event::Running(b) => b,
        Event::Written(r) => r is Err,
        Event::Launched(r) => r is Err,
        _ => false,
    }
}

/// What the course of a switch holds is what its events told.
proof fn lemma_course(p: Plan, es: Seq<Event>)
    requires
        in_order(p, es),
    ensures
        ({
            let c = course_after(p, es);
            &&& es.len() == 0 <==> c.stage == Stage::Finding
            &&& es.len() > 0 ==> es[0] is Account
            &&& es.len() > 1 || (es.len() > 0 && c.stage != Stage::Over) ==> finds(p, es[0])
            &&& es.len() > 1 ==> es[1] is Saved
            &&& es.len() > 2 ==> es[2] is Probed
            &&& es.len() > 0 && finds(p, es[0]) ==> (es[0] matches Event::Account(Some(found))
                && c.account == found.0.tree() && c.name == found.1@)
            &&& es.len() > 1 ==> (es[1] matches Event::Saved(b) && match b {
                Some(x) => c.backup == Some(x@),
                None => c.backup is None,
            })
            &&& es.len() > 2 ==> (es[2] matches Event::Probed(b) && c.capable == b)
            &&& es.len() <= 1 ==> c.backup is None
            &&& es.len() == 1 ==> c.stage == Stage::Saving || c.stage == Stage::Over
            &&& es.len() == 2 ==> c.stage == Stage::Probing
            &&& es.len() > 2 ==> c.stage != Stage::Probing && c.stage != Stage::Saving
            &&& reach(c.stage) <= reach(Stage::Sharing) ==> !happened(es, Sign::Shared)
            &&& reach(c.stage) <= reach(Stage::Copying) ==> !happened(es, Sign::Copied)
            &&& forall|i: int|
                0 <= i < es.len() && (#[trigger] es[i]) is Shared ==> c.shared == share_told(es[i])
            &&& forall|i: int|
                0 <= i < es.len() && (#[trigger] es[i]) is Copied ==> c.copied == copy_told(es[i])
            &&& !happened(es, Sign::Shared) ==> c.shared is None
            &&& !happened(es, Sign::Copied) ==> c.copied is None
        }),
    decreases es.len(),
{
    if es.len() > 0 {
        let before = es.drop_last();
        let e = es.last();
        let n = before.len() as int;
        lemma_course(p, before);
        lemma_stage(p, before);
        lemma_happened(es, Sign::Shared);
        lemma_happened(es, Sign::Copied);
        let b = course_after(p, before);
        let c = course_after(p, es);
        assert(es[n] == e);
        assert forall|i: int| 0 <= i < before.len() implies before[i] == #[trigger] es[i] by {}
        assert forall|i: int| 0 <= i < es.len() && (#[trigger] es[i]) is Shared implies c.shared
            == share_told(es[i]) by {
            if i < n {
                assert(before[i] == es[i]);
                assert(shows(before[i], Sign::Shared));
                assert(happened(before, Sign::Shared));
            }
        }
        assert forall|i: int| 0 <= i < es.len() && (#[trigger] es[i]) is Copied implies c.copied
            == copy_told(es[i]) by {
            if i < n {
                assert(before[i] == es[i]);
                assert(shows(before[i], Sign::Copied));
                assert(happened(before, Sign::Copied));
            }
        }
    }
}

/// Where a switch asks for sessions to be copied, it asks for exactly the sessions of the
/// request, all of them and in order, and for the account that was found.
pub proof fn sessions_asked_for_are_copied(p: Plan, es: Seq<Event>, acc: Tree, ids: Seq<Seq<char>>)
    requires
        in_order(p, es),
        deed_after(p, es) == Deed::Copy(acc, ids),
    ensures
        ids == p.copy,
        ids.len() > 0,
        es.len() > 0,
        es[0] matches Event::Account(Some(found)) && found.0.tree() == acc,
        happened(es, Sign::Matched(p.edition, acc)),
{
    let before = es.drop_last();
    lemma_course(p, before);
    lemma_stage(p, before);
    lemma_course(p, es);
    lemma_happened(es, Sign::Matched(p.edition, acc));
}

/// The login is written for the account that was found, and the client's note gets its
/// identifier and the name under which it is shown.
pub proof fn found_account_is_written(p: Plan, es: Seq<Event>)
    requires
        in_order(p, es),
    ensures
        deed_after(p, es) matches Deed::Write(acc) ==> es.len() > 0 && (
        es[0] matches Event::Account(Some(found)) && acc == found.0.tree()),
        deed_after(p, es) matches Deed::Note(uid, name) ==> es.len() > 0 && (
        es[0] matches Event::Account(Some(found)) && name == found.1@ && match found.0.tree().get(
            "uid"@,
        ) {
            Some(Tree::Text(s)) => uid == s,
            _ => uid.len() == 0,
        }),
        deed_after(p, es) matches Deed::Find(id) ==> id == p.id,
{
    lemma_course(p, es);
    if es.len() > 0 {
        lemma_course(p, es.drop_last());
    }
}

/// Before the login is written, what was asked for was done where it can be: with a client
/// that is started again and sessions to share, they were shared if asked for, and those
/// named were copied.
pub proof fn nothing_asked_for_is_left_out(p: Plan, es: Seq<Event>)
    requires
        in_order(p, es),
        deed_after(p, es) is Write,
        p.restart,
        happened(es, Sign::Capable),
    ensures
        p.share ==> happened(es, Sign::Shared),
        p.copy.len() > 0 ==> happened(es, Sign::Copied),
{
    let before = es.drop_last();
    lemma_course(p, before);
    lemma_course(p, es);
    lemma_stage(p, before);
    lemma_capable(p, es);
    lemma_happened(es, Sign::Shared);
    lemma_happened(es, Sign::Copied);
}

/// Whether there are sessions is told by the third event.
proof fn lemma_capable(p: Plan, es: Seq<Event>)
    requires
        in_order(p, es),
    ensures
        happened(es, Sign::Capable) <==> es.len() > 2 && (es[2] matches Event::Probed(b) && b),
        es.len() > 2 ==> (course_after(p, es).capable <==> happened(es, Sign::Capable)),
    decreases es.len(),
{
    lemma_course(p, es);
    if es.len() > 0 {
        lemma_capable(p, es.drop_last());
        lemma_course(p, es.drop_last());
        lemma_happened(es, Sign::Capable);
        assert(es[es.len() - 1] == es.last());
        if es.len() > 3 {
            assert(es.drop_last()[2] == es[2]);
        }
    }
}

/// Nothing is done to sessions that was not asked for.
pub proof fn nothing_else_is_done(p: Plan, es: Seq<Event>)
    requires
        in_order(p, es),
    ensures
        deed_after(p, es) is Share ==> p.share,
        deed_after(p, es) is Copy ==> p.copy.len() > 0,
        deed_after(p, es) is Close || deed_after(p, es) is Launch ==> p.restart,
        deed_after(p, es) is Check ==> !p.restart && p.edition == Edition::International,
{
    if es.len() > 0 {
        lemma_stage(p, es.drop_last());
    }
}

/// What is done next has its reason in the last event, and follows from it.
pub proof fn every_event_is_acted_on(p: Plan, es: Seq<Event>)
    requires
        in_order(p, es),
        es.len() > 0,
    ensures
        ({
            let e = es.last();
            let d = deed_after(p, es);
            &&& d is Fail <==> stops(p, e)
            &&& d is Save <==> finds(p, e)
            &&& d is Probe <==> e is Saved
            &&& d is Close <==> e is Probed && p.restart
            &&& d is Check <==> e is Probed && !p.restart && p.edition == Edition::International
            &&& d is Share <==> shows(e, Sign::Closed) && p.share && happened(es, Sign::Capable)
            &&& d is Copy <==> (e is Shared || (shows(e, Sign::Closed) && !p.share)) && happened(
                es,
                Sign::Capable,
            ) && p.copy.len() > 0
            &&& d is Note <==> shows(e, Sign::Written)
            &&& d is Launch <==> e is Noted && p.restart
            &&& d is Finish <==> (e is Noted && !p.restart) || shows(e, Sign::Launched)
        }),
{
    let before = es.drop_last();
    lemma_stage(p, before);
    lemma_course(p, before);
    lemma_course(p, es);
    lemma_capable(p, es);
    lemma_capable(p, before);
    if es.len() > 3 {
        assert(before[2] == es[2]);
    }
    lemma_happened(es, Sign::Capable);
}

/// A switch that fails says why: that there is no such account, with the identifier asked
/// for; the two editions; that the client is running; or the message of what failed.
pub proof fn failures_are_passed_on(p: Plan, es: Seq<Event>)
    requires
        in_order(p, es),
        es.len() > 0,
        stops(p, es.last()),
    ensures
        deed_after(p, es) matches Deed::Fail(m) && match es.last() {
            Event::Account(None) => m == "账号不存在: "@ + p.id,
            Event::Account(Some(found)) => m == "该账号属于「"@ + account_edition(
                found.0.tree(),
            ).label_text() + "」，不能切到「"@ + p.edition.label_text() + "」客户端"@,
            Event::Closed(Err(x)) => m == x@,
            Event::Written(Err(x)) => m == x@,
            Event::Launched(Err(x)) => m == x@,
            _ => m == "WorkBuddyAI 正在运行，请先完全退出后再切换"@,
        },
{
}

/// The names of members of a report differ from each other.
proof fn lemma_report_names()
    ensures
        "ok"@ != "account"@,
        "ok"@ != "edition"@,
        "ok"@ != "backup"@,
        "ok"@ != "sessionCopy"@,
        "ok"@ != "sessionShare"@,
        "account"@ != "edition"@,
        "account"@ != "backup"@,
        "account"@ != "sessionCopy"@,
        "account"@ != "sessionShare"@,
        "edition"@ != "backup"@,
        "edition"@ != "sessionCopy"@,
        "edition"@ != "sessionShare"@,
        "backup"@ != "sessionCopy"@,
        "backup"@ != "sessionShare"@,
        "sessionCopy"@ != "sessionShare"@,
{
    reveal_strlit("ok");
    reveal_strlit("account");
    reveal_strlit("edition");
    reveal_strlit("backup");
    reveal_strlit("sessionCopy");
    reveal_strlit("sessionShare");
    assert("ok"@.len() == 2);
    assert("account"@.len() == 7);
    assert("edition"@.len() == 7);
    assert("account"@[0] == 'a');
    assert("edition"@[0] == 'e');
    assert("backup"@.len() == 6);
    assert("sessionCopy"@.len() == 11);
    assert("sessionShare"@.len() == 12);
}

/// What is reported of a switch that is done is what its events told: the name of the
/// account that was found, the edition, where the backup is, and what was reported of
/// copying and of sharing, if there was either.
pub proof fn report_tells_what_happened(p: Plan, es: Seq<Event>, doc: Tree, i: int)
    requires
        in_order(p, es),
        deed_after(p, es) == Deed::Finish(doc),
        0 <= i < es.len(),
    ensures
        doc.get("ok"@) == Some(Tree::Bool(true)),
        doc.get("edition"@) == Some(Tree::Text(p.edition.key_text())),
        es.len() > 2,
        es[0] matches Event::Account(Some(found)) && doc.get("account"@) == Some(
            Tree::Text(found.1@),
        ),
        es[1] matches Event::Saved(b) && doc.get("backup"@) == Some(
            match b {
                Some(x) => Tree::Text(x@),
                None => Tree::Null,
            },
        ),
        es[i] is Copied ==> doc.get("sessionCopy"@) == copy_told(es[i]),
        es[i] is Shared ==> doc.get("sessionShare"@) == share_told(es[i]),
        !happened(es, Sign::Copied) ==> doc.get("sessionCopy"@) is None,
        !happened(es, Sign::Shared) ==> doc.get("sessionShare"@) is None,
{
    lemma_report_names();
    let before = es.drop_last();
    lemma_course(p, es);
    lemma_course(p, before);
    lemma_stage(p, before);
    assert(es.last() == es[es.len() - 1]);
    if before.len() > 2 {
        assert(before[0] == es[0]);
        assert(before[1] == es[1]);
    }
}

/// What a user is told last of a step names it, and a user who asked for something that the
/// edition has no sessions for is told that it is left out.
pub proof fn steps_are_told(p: Plan, es: Seq<Event>)
    requires
        in_order(p, es),
        es.len() > 0,
    ensures
        ({
            let m = advance(p, course_after(p, es.drop_last()), es.last());
            let skipped_share = "该版本没有可用的会话库，已跳过会话共享"@;
            let skipped_copy = "该版本没有可用的会话库，已跳过会话复制"@;
            let none = Seq::<Seq<char>>::empty();
            &&& m.deed is Fail || m.deed is Save || m.deed is Probe || m.deed is Check
                || m.deed is Note ==> m.told == none
            &&& m.deed is Close ==> m.told == none.push(
                match p.edition {
                    Edition::Domestic => "正在关闭 WorkBuddy…"@,
                    Edition::International => "正在关闭 WorkBuddyAI…"@,
                },
            )
            &&& m.deed is Share ==> m.told == none.push("正在把会话设为多账号共享…"@)
            &&& m.deed is Copy ==> m.told == none.push("正在复制会话到目标账号…"@)
            &&& m.deed is Write ==> m.told.len() > 0 && m.told.last() == "正在写入认证文件…"@
            &&& m.deed is Write && !shows(es.last(), Sign::Closed) && !(es.last() is Shared)
                ==> m.told.len() == 1
            &&& m.deed is Write && happened(es, Sign::Capable) ==> m.told.len() == 1
            &&& m.deed is Write && shows(es.last(), Sign::Closed) && !happened(es, Sign::Capable)
                ==> m.told == ((if p.share {
                none.push(skipped_share)
            } else {
                none
            }) + (if p.copy.len() > 0 {
                none.push(skipped_copy)
            } else {
                none
            })).push("正在写入认证文件…"@)
            &&& m.deed is Launch ==> m.told.len() > 0 && m.told.last() == "正在启动客户端…"@
            &&& m.deed is Finish ==> m.told.len() > 0 && m.told.last() == "切换完成"@
            &&& es.last() is Launched && m.deed is Finish ==> m.told.len() == 1
            &&& (es.last() matches Event::Noted(r) && (r matches Ok(b) && b)) ==> m.told.len() == 2
                && m.told[0] == "已同步客户端账号快照"@
            &&& (es.last() matches Event::Noted(r) && !(r matches Ok(b) && b)) ==> m.told.len() == 1
        }),
{
    let before = es.drop_last();
    lemma_stage(p, before);
    lemma_course(p, before);
    lemma_course(p, es);
    lemma_capable(p, es);
    lemma_capable(p, before);
    if es.len() > 3 {
        assert(before[2] == es[2]);
    }
    lemma_happened(es, Sign::Capable);
}

/// An event that is awaited after the events `es` leads on in order.
pub proof fn awaited_events_are_in_order(p: Plan, es: Seq<Event>, e: Event)
    requires
        in_order(p, es),
        awaited(course_after(p, es).stage, e),
    ensures
        in_order(p, es.push(e)),
{
    assert(es.push(e).drop_last() =~= es);
}

/// After each thing that is done the switch waits for what comes of it, and for nothing
/// else; after its end it waits for nothing.
pub proof fn each_deed_is_answered(p: Plan, es: Seq<Event>, e: Event)
    requires
        in_order(p, es),
    ensures
        awaited(course_after(p, es).stage, e) <==> match deed_after(p, es) {
            Deed::Find(_) => e is Account,
            Deed::Save => e is Saved,
            Deed::Probe => e is Probed,
            Deed::Close => e is Closed,
            Deed::Copy(_, _) => e is Copied,
            Deed::Share => e is Shared,
            Deed::Check => e is Running,
            Deed::Write(_) => e is Written,
            Deed::Note(_, _) => e is Noted,
            Deed::Launch => e is Launched,
            Deed::Finish(_) | Deed::Fail(_) => false,
        },
{
    if es.len() > 0 {
        lemma_stage(p, es.drop_last());
    }
}

/// What is asked of a switch is what the request says, and all of it: every session that is
/// to be copied, in order.
pub proof fn plan_is_the_request(r: Request, i: int)
    ensures
        r@.id == r.account_id@,
        r@.restart == r.restart,
        r@.share == r.share_sessions,
        r@.edition == r.edition,
        r@.copy.len() == r.copy_session_ids@.len(),
        0 <= i < r@.copy.len() ==> r@.copy[i] == r.copy_session_ids@[i]@,
{
}

/// What is done is what the act says: the sessions that it names are all copied, in order,
/// and to the account that it names.
pub proof fn deed_is_the_act(a: Act, i: int)
    ensures
        match a {
            Act::Find(id) => a@ == Deed::Find(id@),
            Act::Copy(acc, ids) => a@ matches Deed::Copy(t, names) && t == acc.tree() && names.len()
                == ids@.len() && (0 <= i < names.len() ==> names[i] == ids@[i]@),
            Act::Write(acc) => a@ == Deed::Write(acc.tree()),
            Act::Note(uid, name) => a@ == Deed::Note(uid@, name@),
            Act::Finish(doc) => a@ == Deed::Finish(doc.tree()),
            Act::Fail(e) => a@ == Deed::Fail(e@),
            Act::Save => a@ is Save,
            Act::Probe => a@ is Probe,
            Act::Close => a@ is Close,
            Act::Share => a@ is Share,
            Act::Check => a@ is Check,
            Act::Launch => a@ is Launch,
        },
{
}

} // verus!
