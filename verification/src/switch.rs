//! Switching the client to another account, step by step.

use vstd::prelude::*;

use crate::edition::{account_edition, edition_of, Edition};
use crate::json::{kept, Json, Tree};
use crate::text::{copies, joined, texts};

verus! {

/// How long the client is given to close, in seconds.
pub const CLOSE_WAIT_SECS: u64 = 20;

/// What is asked of a switch.
pub struct Request {
    /// The account to switch to.
    pub account_id: String,
    /// Whether the client is closed before and started after.
    pub restart: bool,
    /// Whether all sessions are shared.
    pub share_sessions: bool,
    /// The sessions that are copied.
    pub copy_session_ids: Vec<String>,
    /// The edition of the client.
    pub edition: Edition,
}

/// What is asked of a switch, in the model.
#[verifier::ext_equal]
pub struct Plan {
    pub id: Seq<char>,
    pub restart: bool,
    pub share: bool,
    pub copy: Seq<Seq<char>>,
    pub edition: Edition,
}

impl View for Request {
    type V = Plan;

    open spec fn view(&self) -> Plan {
        Plan {
            id: self.account_id@,
            restart: self.restart,
            share: self.share_sessions,
            copy: texts(self.copy_session_ids@),
            edition: self.edition,
        }
    }
}

/// What a switch is waiting for.
#[derive(Clone, Copy, Debug, PartialEq, Eq, Structural)]
pub enum Stage {
    /// The account.
    Finding,
    /// The backup of the login file.
    Saving,
    /// Whether there are sessions to share.
    Probing,
    /// The client to close.
    Closing,
    /// The sessions to be shared.
    Sharing,
    /// The sessions to be copied.
    Copying,
    /// Whether the client is running.
    Checking,
    /// The login file to be written.
    Writing,
    /// The client's note of the current account to be written.
    Noting,
    /// The client to start.
    Launching,
    /// Nothing: it is over.
    Over,
}

/// What has happened.
pub enum Event {
    /// The account and the name under which it is shown, if there is such an account.
    Account(Option<(Json, String)>),
    /// The login file was saved; where the backup is, if there was one to make.
    Saved(Option<String>),
    /// Whether there are sessions to share.
    Probed(bool),
    /// The client was closed, or not.
    Closed(Result<(), String>),
    /// The sessions were copied; what is reported of it.
    Copied(Option<Json>),
    /// The sessions were shared, or not; what is reported of it.
    Shared(Result<Json, String>),
    /// Whether the client is running.
    Running(bool),
    /// The login file was written, or not.
    Written(Result<(), String>),
    /// The client's note was written, was not there, or could not be written.
    Noted(Result<bool, String>),
    /// The client was started, or not.
    Launched(Result<(), String>),
}

/// What is done next.
pub enum Act {
    /// The account with this identifier is looked up.
    Find(String),
    /// The login file is saved.
    Save,
    /// It is found out whether there are sessions to share.
    Probe,
    /// The client is closed.
    Close,
    /// These sessions are copied to the account.
    Copy(Json, Vec<String>),
    /// The sessions are shared.
    Share,
    /// It is found out whether the client is running.
    Check,
    /// The login file is written for the account.
    Write(Json),
    /// The client's note is written: the identifier and the name of the account.
    Note(String, String),
    /// The client is started.
    Launch,
    /// The switch is done; what is reported of it.
    Finish(Json),
    /// The switch has failed; a message.
    Fail(String),
}

/// What is done next, in the model.
#[verifier::ext_equal]
pub enum Deed {
    Find(Seq<char>),
    Save,
    Probe,
    Close,
    Copy(Tree, Seq<Seq<char>>),
    Share,
    Check,
    Write(Tree),
    Note(Seq<char>, Seq<char>),
    Launch,
    Finish(Tree),
    Fail(Seq<char>),
}

impl View for Act {
    type V = Deed;

    open spec fn view(&self) -> Deed {
        match *self {
            Act::Find(id) => Deed::Find(id@),
            Act::Save => Deed::Save,
            Act::Probe => Deed::Probe,
            Act::Close => Deed::Close,
            Act::Copy(acc, ids) => Deed::Copy(acc.tree(), texts(ids@)),
            Act::Share => Deed::Share,
            Act::Check => Deed::Check,
            Act::Write(acc) => Deed::Write(acc.tree()),
            Act::Note(uid, name) => Deed::Note(uid@, name@),
            Act::Launch => Deed::Launch,
            Act::Finish(doc) => Deed::Finish(doc.tree()),
            Act::Fail(e) => Deed::Fail(e@),
        }
    }
}

/// What is told to the user, and what is done next.
pub struct Step {
    pub progress: Vec<&'static str>,
    pub act: Act,
}

/// The texts that are told.
pub open spec fn told(v: Seq<&'static str>) -> Seq<Seq<char>> {
    v.map_values(|s: &'static str| s@)
}

/// How far a switch has come, in the model.
#[verifier::ext_equal]
pub struct Course {
    pub stage: Stage,
    pub account: Tree,
    pub name: Seq<char>,
    pub backup: Option<Seq<char>>,
    pub capable: bool,
    pub copied: Option<Tree>,
    pub shared: Option<Tree>,
}

/// The course, what is told, and what is done next.
#[verifier::ext_equal]
pub struct Move {
    pub course: Course,
    pub told: Seq<Seq<char>>,
    pub deed: Deed,
}

/// A switch that ends with a failure.
pub open spec fn failing(c: Course, message: Seq<char>) -> Move {
    Move {
        course: Course { stage: Stage::Over, ..c },
        told: Seq::empty(),
        deed: Deed::Fail(message),
    }
}

/// Whether an event is what a switch is waiting for.
pub open spec fn awaited(stage: Stage, e: Event) -> bool {
    match e {
        Event::Account(_) => stage == Stage::Finding,
        Event::Saved(_) => stage == Stage::Saving,
        Event::Probed(_) => stage == Stage::Probing,
        Event::Closed(_) => stage == Stage::Closing,
        Event::Copied(_) => stage == Stage::Copying,
        Event::Shared(_) => stage == Stage::Sharing,
        Event::Running(_) => stage == Stage::Checking,
        Event::Written(_) => stage == Stage::Writing,
        Event::Noted(_) => stage == Stage::Noting,
        Event::Launched(_) => stage == Stage::Launching,
    }
}

/// The message about an account of another edition.
pub open spec fn wrong_edition(of: Edition, to: Edition) -> Seq<char> {
    "该账号属于「"@ + of.label_text() + "」，不能切到「"@ + to.label_text() + "」客户端"@
}

/// The login file is written next.
pub open spec fn to_write(c: Course, told: Seq<Seq<char>>) -> Move {
    Move {
        course: Course { stage: Stage::Writing, ..c },
        told: told.push("正在写入认证文件…"@),
        deed: Deed::Write(c.account),
    }
}

/// Sessions are copied next, if asked for and possible.
pub open spec fn to_copy(p: Plan, c: Course, told: Seq<Seq<char>>) -> Move {
    if p.copy.len() == 0 {
        to_write(c, told)
    } else if c.capable {
        Move {
            course: Course { stage: Stage::Copying, ..c },
            told: told.push("正在复制会话到目标账号…"@),
            deed: Deed::Copy(c.account, p.copy),
        }
    } else {
        to_write(c, told.push("该版本没有可用的会话库，已跳过会话复制"@))
    }
}

/// The sessions are shared next, if asked for and possible. Sharing comes before
/// copying, so that a copy keeps its owner.
pub open spec fn to_share(p: Plan, c: Course) -> Move {
    let none = Seq::<Seq<char>>::empty();
    if !p.share {
        to_copy(p, c, none)
    } else if c.capable {
        Move {
            course: Course { stage: Stage::Sharing, ..c },
            told: none.push("正在把会话设为多账号共享…"@),
            deed: Deed::Share,
        }
    } else {
        to_copy(p, c, none.push("该版本没有可用的会话库，已跳过会话共享"@))
    }
}

/// What is reported of a switch that is done.
pub open spec fn result_document(p: Plan, c: Course) -> Tree {
    let base = Tree::Dict(
        Map::<Seq<char>, Tree>::empty().insert("ok"@, Tree::Bool(true)).insert(
            "account"@,
            Tree::Text(c.name),
        ).insert("edition"@, Tree::Text(p.edition.key_text())).insert(
            "backup"@,
            match c.backup {
                Some(b) => Tree::Text(b),
                None => Tree::Null,
            },
        ),
    );
    let copied = match c.copied {
        Some(t) => base.with("sessionCopy"@, t),
        None => base,
    };
    match c.shared {
        Some(t) => copied.with("sessionShare"@, t),
        None => copied,
    }
}

/// The switch is done.
pub open spec fn to_finish(p: Plan, c: Course, told: Seq<Seq<char>>) -> Move {
    Move {
        course: Course { stage: Stage::Over, ..c },
        told: told.push("切换完成"@),
        deed: Deed::Finish(result_document(p, c)),
    }
}

/// What follows an event that a switch was waiting for.
pub open spec fn advance(p: Plan, c: Course, e: Event) -> Move {
    let none = Seq::<Seq<char>>::empty();
    match e {
        Event::Account(None) => failing(c, "账号不存在: "@ + p.id),
        Event::Account(Some(found)) => if account_edition(found.0.tree()) != p.edition {
            failing(c, wrong_edition(account_edition(found.0.tree()), p.edition))
        } else {
            Move {
                course: Course {
                    stage: Stage::Saving,
                    account: found.0.tree(),
                    name: found.1@,
                    ..c
                },
                told: none,
                deed: Deed::Save,
            }
        },
        Event::Saved(backup) => Move {
            course: Course {
                stage: Stage::Probing,
                backup: match backup {
                    Some(b) => Some(b@),
                    None => None,
                },
                ..c
            },
            told: none,
            deed: Deed::Probe,
        },
        Event::Probed(capable) => {
            let d = Course { capable, ..c };
            if p.restart {
                Move {
                    course: Course { stage: Stage::Closing, ..d },
                    told: none.push(
                        if p.edition == Edition::Domestic {
                            "正在关闭 WorkBuddy…"@
                        } else {
                            "正在关闭 WorkBuddyAI…"@
                        },
                    ),
                    deed: Deed::Close,
                }
            } else if p.edition == Edition::International {
                Move {
                    course: Course { stage: Stage::Checking, ..d },
                    told: none,
                    deed: Deed::Check,
                }
            } else {
                to_write(d, none)
            }
        },
        Event::Closed(Ok(_)) => to_share(p, c),
        Event::Closed(Err(m)) => failing(c, m@),
        Event::Shared(report) => to_copy(
            p,
            Course {
                shared: Some(
                    match report {
                        Ok(j) => j.tree(),
                        Err(m) => Tree::Dict(
                            Map::<Seq<char>, Tree>::empty().insert("error"@, Tree::Text(m@)),
                        ),
                    },
                ),
                ..c
            },
            none,
        ),
        Event::Copied(report) => to_write(
            Course {
                copied: kept(report),
                ..c
            },
            none,
        ),
        Event::Running(true) => failing(c, "WorkBuddyAI 正在运行，请先完全退出后再切换"@),
        Event::Running(false) => to_write(c, none),
        Event::Written(Ok(_)) => Move {
            course: Course { stage: Stage::Noting, ..c },
            told: none,
            deed: Deed::Note(c.account.text_or_empty("uid"@), c.name),
        },
        Event::Written(Err(m)) => failing(c, m@),
        Event::Noted(noted) => {
            let before = match noted {
                Ok(true) => none.push("已同步客户端账号快照"@),
                _ => none,
            };
            if p.restart {
                Move {
                    course: Course { stage: Stage::Launching, ..c },
                    told: before.push("正在启动客户端…"@),
                    deed: Deed::Launch,
                }
            } else {
                to_finish(p, c, before)
            }
        },
        Event::Launched(Ok(_)) => to_finish(p, c, none),
        Event::Launched(Err(m)) => failing(c, m@),
    }
}

/// A switch that is under way.
pub struct Switch {
    request: Request,
    stage: Stage,
    account: Json,
    name: String,
    backup: Option<String>,
    capable: bool,
    copied: Option<Json>,
    shared: Option<Json>,
}

/// The course of a switch that is about to begin.
pub open spec fn beginning() -> Course {
    Course {
        stage: Stage::Finding,
        account: Tree::Null,
        name: Seq::empty(),
        backup: None,
        capable: false,
        copied: None,
        shared: None,
    }
}

impl Switch {
    /// What was asked for.
    pub closed spec fn plan(self) -> Plan {
        self.request@
    }

    /// How far the switch has come.
    pub closed spec fn course(self) -> Course {
        Course {
            stage: self.stage,
            account: self.account.tree(),
            name: self.name@,
            backup: match self.backup {
                Some(b) => Some(b@),
                None => None,
            },
            capable: self.capable,
            copied: kept(self.copied),
            shared: kept(self.shared),
        }
    }

    /// What the switch is waiting for.
    pub fn stage(&self) -> (r: Stage)
        ensures
            r == self.course().stage,
    {
        self.stage
    }

    /// Ends with a failure.
    fn fail(&mut self, message: String) -> (r: Step)
        ensures
            final(self).plan() == old(self).plan(),
            final(self).course() == failing(old(self).course(), message@).course,
            told(r.progress@) == Seq::<Seq<char>>::empty(),
            r.act@ == Deed::Fail(message@),
    {
        self.stage = Stage::Over;
        let progress: Vec<&'static str> = Vec::new();
        assert(told(progress@) =~= Seq::<Seq<char>>::empty());
        Step { progress, act: Act::Fail(message) }
    }

    /// The login file is written next.
    fn begin_write(&mut self, progress: Vec<&'static str>) -> (r: Step)
        ensures
            final(self).plan() == old(self).plan(),
            (Move { course: final(self).course(), told: told(r.progress@), deed: r.act@ })
                == to_write(old(self).course(), told(progress@)),
    {
        let mut progress = progress;
        let ghost before = progress@;
        self.stage = Stage::Writing;
        progress.push("正在写入认证文件…");
        assert(told(progress@) =~= told(before).push("正在写入认证文件…"@));
        Step { progress, act: Act::Write(self.account.copy()) }
    }

    /// Sessions are copied next, if asked for and possible.
    fn begin_copy(&mut self, progress: Vec<&'static str>) -> (r: Step)
        ensures
            final(self).plan() == old(self).plan(),
            (Move { course: final(self).course(), told: told(r.progress@), deed: r.act@ })
                == to_copy(old(self).plan(), old(self).course(), told(progress@)),
    {
        assert(self.plan().copy.len() == self.request.copy_session_ids@.len());
        if self.request.copy_session_ids.len() == 0 {
            return self.begin_write(progress);
        }
        let mut progress = progress;
        let ghost before = progress@;
        if self.capable {
            self.stage = Stage::Copying;
            progress.push("正在复制会话到目标账号…");
            assert(told(progress@) =~= told(before).push("正在复制会话到目标账号…"@));
            let ids = copies(&self.request.copy_session_ids);
            return Step { progress, act: Act::Copy(self.account.copy(), ids) };
        }
        progress.push("该版本没有可用的会话库，已跳过会话复制");
        assert(told(progress@) =~= told(before).push("该版本没有可用的会话库，已跳过会话复制"@));
        self.begin_write(progress)
    }

    /// The sessions are shared next, if asked for and possible.
    fn begin_share(&mut self) -> (r: Step)
        ensures
            final(self).plan() == old(self).plan(),
            (Move { course: final(self).course(), told: told(r.progress@), deed: r.act@ })
                == to_share(old(self).plan(), old(self).course()),
    {
        let mut progress: Vec<&'static str> = Vec::new();
        let ghost none = Seq::<Seq<char>>::empty();
        assert(told(progress@) =~= none);
        if !self.request.share_sessions {
            return self.begin_copy(progress);
        }
        if self.capable {
            self.stage = Stage::Sharing;
            progress.push("正在把会话设为多账号共享…");
            assert(told(progress@) =~= none.push("正在把会话设为多账号共享…"@));
            return Step { progress, act: Act::Share };
        }
        progress.push("该版本没有可用的会话库，已跳过会话共享");
        assert(told(progress@) =~= none.push("该版本没有可用的会话库，已跳过会话共享"@));
        self.begin_copy(progress)
    }

    /// What is reported of a switch that is done.
    fn result(&self) -> (r: Json)
        ensures
            r.tree() == result_document(self.plan(), self.course()),
    {
        let mut d = Json::dict();
        d.set("ok", Json::Bool(true));
        d.set("account", Json::text(self.name.as_str()));
        d.set("edition", Json::text(self.request.edition.key()));
        let backup = match &self.backup {
            Some(b) => Json::text(b.as_str()),
            None => Json::Null,
        };
        d.set("backup", backup);
        match &self.copied {
            Some(c) => {
                d.set("sessionCopy", c.copy());
            },
            None => {},
        }
        match &self.shared {
            Some(s) => {
                d.set("sessionShare", s.copy());
            },
            None => {},
        }
        d
    }

    /// The switch is done.
    fn finish(&mut self, progress: Vec<&'static str>) -> (r: Step)
        ensures
            final(self).plan() == old(self).plan(),
            (Move { course: final(self).course(), told: told(r.progress@), deed: r.act@ })
                == to_finish(old(self).plan(), old(self).course(), told(progress@)),
    {
        let mut progress = progress;
        let ghost before = progress@;
        let doc = self.result();
        self.stage = Stage::Over;
        progress.push("切换完成");
        assert(told(progress@) =~= told(before).push("切换完成"@));
        Step { progress, act: Act::Finish(doc) }
    }

    /// Takes what has happened and decides what is told and done next.
    pub fn next(&mut self, event: Event) -> (r: Step)
        requires
            awaited(old(self).course().stage, event),
        ensures
            final(self).plan() == old(self).plan(),
            (Move { course: final(self).course(), told: told(r.progress@), deed: r.act@ })
                == advance(old(self).plan(), old(self).course(), event),
    {
        let mut none: Vec<&'static str> = Vec::new();
        let ghost empty = Seq::<Seq<char>>::empty();
        assert(told(none@) =~= empty);
        match event {
            Event::Account(None) => {
                let m = joined("账号不存在: ", self.request.account_id.as_str());
                self.fail(m)
            },
            Event::Account(Some(found)) => {
                let of = edition_of(&found.0);
                if of != self.request.edition {
                    let a = joined("该账号属于「", of.label());
                    let b = joined(a.as_str(), "」，不能切到「");
                    let c = joined(b.as_str(), self.request.edition.label());
                    let m = joined(c.as_str(), "」客户端");
                    return self.fail(m);
                }
                self.account = found.0;
                self.name = found.1;
                self.stage = Stage::Saving;
                Step { progress: none, act: Act::Save }
            },
            Event::Saved(backup) => {
                self.backup = backup;
                self.stage = Stage::Probing;
                Step { progress: none, act: Act::Probe }
            },
            Event::Probed(capable) => {
                self.capable = capable;
                if self.request.restart {
                    self.stage = Stage::Closing;
                    if self.request.edition == Edition::Domestic {
                        none.push("正在关闭 WorkBuddy…");
                        assert(told(none@) =~= empty.push("正在关闭 WorkBuddy…"@));
                    } else {
                        none.push("正在关闭 WorkBuddyAI…");
                        assert(told(none@) =~= empty.push("正在关闭 WorkBuddyAI…"@));
                    }
                    Step { progress: none, act: Act::Close }
                } else if self.request.edition == Edition::International {
                    self.stage = Stage::Checking;
                    Step { progress: none, act: Act::Check }
                } else {
                    self.begin_write(none)
                }
            },
            Event::Closed(closed) => match closed {
                Ok(_) => self.begin_share(),
                Err(m) => self.fail(m),
            },
            Event::Shared(report) => {
                let doc = match report {
                    Ok(j) => j,
                    Err(m) => {
                        let mut d = Json::dict();
                        d.set("error", Json::text(m.as_str()));
                        d
                    },
                };
                self.shared = Some(doc);
                self.begin_copy(none)
            },
            Event::Copied(report) => {
                self.copied = report;
                self.begin_write(none)
            },
            Event::Running(running) => if running {
                self.fail("WorkBuddyAI 正在运行，请先完全退出后再切换".to_owned())
            } else {
                self.begin_write(none)
            },
            Event::Written(written) => match written {
                Ok(_) => {
                    self.stage = Stage::Noting;
                    let uid = self.account.str_or_empty("uid");
                    let name = self.name.as_str().to_owned();
                    Step { progress: none, act: Act::Note(uid, name) }
                },
                Err(m) => self.fail(m),
            },
            Event::Noted(noted) => {
                if matches!(noted, Ok(true)) {
                    none.push("已同步客户端账号快照");
                    assert(told(none@) =~= empty.push("已同步客户端账号快照"@));
                }
                if self.request.restart {
                    let ghost before = none@;
                    self.stage = Stage::Launching;
                    none.push("正在启动客户端…");
                    assert(told(none@) =~= told(before).push("正在启动客户端…"@));
                    Step { progress: none, act: Act::Launch }
                } else {
                    self.finish(none)
                }
            },
            Event::Launched(launched) => match launched {
                Ok(_) => self.finish(none),
                Err(m) => self.fail(m),
            },
        }
    }
}

/// Begins a switch of the client of an edition to another account.
pub fn switch_account_in_edition(request: Request) -> (r: (Switch, Step))
    ensures
        r.0.plan() == request@,
        r.0.course() == beginning(),
        told(r.1.progress@) == seq!["开始切换账号…"@],
        r.1.act@ == Deed::Find(request@.id),
{
    let progress = vec!["开始切换账号…"];
    assert(told(progress@) =~= seq!["开始切换账号…"@]);
    let act = Act::Find(request.account_id.as_str().to_owned());
    let s = Switch {
        request,
        stage: Stage::Finding,
        account: Json::Null,
        name: String::new(),
        backup: None,
        capable: false,
        copied: None,
        shared: None,
    };
    assert(s.course() =~= beginning());
    (s, Step { progress, act })
}

/// Begins a switch of the client of the domestic edition to another account.
pub fn switch_account(
    account_id: &str,
    restart: bool,
    share_sessions: bool,
    copy_session_ids: &Vec<String>,
) -> (r: (Switch, Step))
    ensures
        r.0.plan() == (Plan {
            id: account_id@,
            restart,
            share: share_sessions,
            copy: texts(copy_session_ids@),
            edition: Edition::Domestic,
        }),
        r.0.course() == beginning(),
        told(r.1.progress@) == seq!["开始切换账号…"@],
        r.1.act@ == Deed::Find(account_id@),
{
    let request = Request {
        account_id: account_id.to_owned(),
        restart,
        share_sessions,
        copy_session_ids: copies(copy_session_ids),
        edition: Edition::Domestic,
    };
    switch_account_in_edition(request)
}

/// The course of a switch once the events `es` have happened.
pub open spec fn course_after(p: Plan, es: Seq<Event>) -> Course
    decreases es.len(),
{
    if es.len() == 0 {
        beginning()
    } else {
        advance(p, course_after(p, es.drop_last()), es.last()).course
    }
}

/// Whether each of the events `es` was what the switch was waiting for.
pub open spec fn in_order(p: Plan, es: Seq<Event>) -> bool
    decreases es.len(),
{
    es.len() == 0 || (in_order(p, es.drop_last()) && awaited(
        course_after(p, es.drop_last()).stage,
        es.last(),
    ))
}

/// What is done once the events `es` have happened.
pub open spec fn deed_after(p: Plan, es: Seq<Event>) -> Deed {
    if es.len() == 0 {
        Deed::Find(p.id)
    } else {
        advance(p, course_after(p, es.drop_last()), es.last()).deed
    }
}

/// Things that may have happened.
pub enum Sign {
    /// An account of the right edition was found.
    Matched(Edition, Tree),
    /// There are sessions to share.
    Capable,
    /// The client was closed.
    Closed,
    /// The sessions were shared, or it was tried.
    Shared,
    /// The sessions were copied, or it was tried.
    Copied,
    /// The client was not running.
    Idle,
    /// The login file was written.
    Written,
    /// The client was started.
    Launched,
}

/// Whether an event shows that something has happened.
pub open spec fn shows(e: Event, sign: Sign) -> bool {
    match sign {
        Sign::Matched(edition, acc) => e matches Event::Account(Some(found)) && found.0.tree()
            == acc && account_edition(acc) == edition,
        Sign::Capable => e matches Event::Probed(b) && b,
        Sign::Closed => e matches Event::Closed(r) && r is Ok,
        Sign::Shared => e is Shared,
        Sign::Copied => e is Copied,
        Sign::Idle => e matches Event::Running(b) && !b,
        Sign::Written => e matches Event::Written(r) && r is Ok,
        Sign::Launched => e matches Event::Launched(r) && r is Ok,
    }
}

/// Whether one of the events `es` shows that something has happened.
pub open spec fn happened(es: Seq<Event>, sign: Sign) -> bool {
    exists|i: int| 0 <= i < es.len() && shows(#[trigger] es[i], sign)
}

/// What has happened stays so, and nothing else happens but with the last event.
pub(crate) proof fn lemma_happened(es: Seq<Event>, sign: Sign)
    requires
        es.len() > 0,
    ensures
        happened(es, sign) <==> happened(es.drop_last(), sign) || shows(es.last(), sign),
{
    if happened(es, sign) {
        let i = choose|i: int| 0 <= i < es.len() && shows(#[trigger] es[i], sign);
        if i < es.len() - 1 {
            assert(es.drop_last()[i] == es[i]);
        }
    }
    if happened(es.drop_last(), sign) {
        let i = choose|i: int|
            0 <= i < es.drop_last().len() && shows(#[trigger] es.drop_last()[i], sign);
        assert(es[i] == es.drop_last()[i]);
    }
    if shows(es.last(), sign) {
        assert(es[es.len() - 1] == es.last());
    }
}

/// Whether the client cannot be in the way of writing its files.
pub open spec fn out_of_the_way(p: Plan, es: Seq<Event>) -> bool {
    if p.restart {
        happened(es, Sign::Closed)
    } else {
        p.edition == Edition::International ==> happened(es, Sign::Idle)
    }
}

/// What has happened when a switch has come to a stage.
pub(crate) proof fn lemma_stage(p: Plan, es: Seq<Event>)
    requires
        in_order(p, es),
    ensures
        ({
            let c = course_after(p, es);
            let s = c.stage;
            &&& s == Stage::Closing || s == Stage::Copying || s == Stage::Sharing || s
                == Stage::Launching ==> p.restart
            &&& s == Stage::Checking ==> !p.restart && p.edition == Edition::International
            &&& s == Stage::Copying || s == Stage::Sharing ==> happened(es, Sign::Closed)
            &&& s == Stage::Copying && p.share ==> happened(es, Sign::Shared)
            &&& reach(s) <= reach(Stage::Copying) ==> !happened(es, Sign::Copied)
            &&& c.capable ==> happened(es, Sign::Capable)
            &&& s == Stage::Writing || s == Stage::Noting || s == Stage::Launching
                ==> out_of_the_way(p, es)
            &&& s == Stage::Noting || s == Stage::Launching ==> happened(es, Sign::Written)
            &&& s != Stage::Finding && s != Stage::Over ==> happened(
                es,
                Sign::Matched(p.edition, c.account),
            )
        }),
    decreases es.len(),
{
    if es.len() > 0 {
        let before = es.drop_last();
        let c = course_after(p, before);
        lemma_stage(p, before);
        lemma_happened(es, Sign::Closed);
        lemma_happened(es, Sign::Capable);
        lemma_happened(es, Sign::Shared);
        lemma_happened(es, Sign::Copied);
        lemma_happened(es, Sign::Idle);
        lemma_happened(es, Sign::Written);
        lemma_happened(es, Sign::Matched(p.edition, course_after(p, es).account));
    }
}

/// The sessions are copied and shared only when the client is started again
/// afterwards, after it was closed, and where there are sessions.
pub proof fn sessions_are_touched_after_closing(p: Plan, es: Seq<Event>)
    requires
        in_order(p, es),
        deed_after(p, es) is Copy || deed_after(p, es) is Share,
    ensures
        p.restart,
        happened(es, Sign::Closed),
        happened(es, Sign::Capable),
{
    let before = es.drop_last();
    lemma_stage(p, before);
    lemma_happened(es, Sign::Closed);
    lemma_happened(es, Sign::Capable);
}

/// Sessions are shared before they are copied, so that a fresh copy keeps its owner:
/// nothing was copied when they are shared, and where both are asked for, they were
/// shared when they are copied.
pub proof fn sessions_are_shared_before_they_are_copied(p: Plan, es: Seq<Event>)
    requires
        in_order(p, es),
    ensures
        deed_after(p, es) is Share ==> !happened(es, Sign::Copied),
        deed_after(p, es) is Copy && p.share ==> happened(es, Sign::Shared),
{
    if es.len() > 0 {
        lemma_stage(p, es.drop_last());
        lemma_happened(es, Sign::Shared);
        lemma_happened(es, Sign::Copied);
    }
}

/// The login file is written only for an account of the edition that was asked for,
/// and only while the client is out of the way: closed if it is started again
/// afterwards, and otherwise, in the international edition, not running.
pub proof fn login_is_written_for_the_right_account(p: Plan, es: Seq<Event>, acc: Tree)
    requires
        in_order(p, es),
        deed_after(p, es) == Deed::Write(acc),
    ensures
        happened(es, Sign::Matched(p.edition, acc)),
        out_of_the_way(p, es),
{
    let before = es.drop_last();
    lemma_stage(p, before);
    lemma_happened(es, Sign::Closed);
    lemma_happened(es, Sign::Idle);
    lemma_happened(es, Sign::Matched(p.edition, acc));
}

/// The client is started only if asked for, and after the login file was written.
pub proof fn client_starts_after_the_login_is_written(p: Plan, es: Seq<Event>)
    requires
        in_order(p, es),
        deed_after(p, es) is Launch,
    ensures
        p.restart,
        happened(es, Sign::Written),
{
    let before = es.drop_last();
    lemma_stage(p, before);
    lemma_happened(es, Sign::Written);
}

/// A switch is reported as done only after the login file was written and, if asked
/// for, the client was started.
pub proof fn success_means_written(p: Plan, es: Seq<Event>)
    requires
        in_order(p, es),
        deed_after(p, es) is Finish,
    ensures
        happened(es, Sign::Written),
        p.restart ==> happened(es, Sign::Launched),
{
    let before = es.drop_last();
    lemma_stage(p, before);
    lemma_happened(es, Sign::Written);
    lemma_happened(es, Sign::Launched);
}

/// A switch ends: after its end nothing is waited for, and it comes to its end after
/// at most nine events.
pub proof fn switch_comes_to_an_end(p: Plan, es: Seq<Event>)
    requires
        in_order(p, es),
    ensures
        es.len() <= 9,
        deed_after(p, es) is Finish || deed_after(p, es) is Fail <==> course_after(p, es).stage
            == Stage::Over,
    decreases es.len(),
{
    lemma_progress(p, es);
    if es.len() > 0 {
        lemma_stage(p, es.drop_last());
    }
}

/// How many events at most lead to a stage.
pub open spec fn reach(s: Stage) -> int {
    match s {
        Stage::Finding => 0,
        Stage::Saving => 1,
        Stage::Probing => 2,
        Stage::Closing => 3,
        Stage::Checking => 3,
        Stage::Sharing => 4,
        Stage::Copying => 5,
        Stage::Writing => 6,
        Stage::Noting => 7,
        Stage::Launching => 8,
        Stage::Over => 9,
    }
}

/// Every event leads on.
proof fn lemma_progress(p: Plan, es: Seq<Event>)
    requires
        in_order(p, es),
    ensures
        es.len() <= reach(course_after(p, es).stage),
    decreases es.len(),
{
    if es.len() > 0 {
        lemma_progress(p, es.drop_last());
    }
}

} // verus!
