//! One chat completion: what is asked of upstream, and what becomes of its answer.

use vstd::prelude::*;

use crate::json::{kept, Json, Tree};
use crate::text::{lines, opt_str};
use super::config::{admitted, check_auth, ProxyConfig};
use super::pump::Pump;
use super::reply::{
    document_reply, error_of, error_reply, text_reply, unauthorized, upstream_error_of,
    upstream_error_reply, Reply,
};
use super::upstream::{
    build_upstream_body, model_of, request_model, upstream_body, upstream_gets_a_stream,
};
use super::usage::{last_usage, UsageMeta};

verus! {

/// Whether a client wants a stream.
pub open spec fn wants_stream(incoming: Tree) -> bool {
    incoming.flag_of("stream"@) == Some(true)
}

/// What a client wants.
pub struct Wish {
    pub stream: bool,
    pub model: String,
}

/// What a client wants.
pub fn wish_of(incoming: &Json) -> (r: Wish)
    ensures
        r.stream == wants_stream(incoming.tree()),
        r.model@ == model_of(incoming.tree()),
{
    let stream = match incoming.flag_of("stream") {
        Some(b) => b,
        None => false,
    };
    Wish { stream, model: request_model(incoming) }
}

/// Whether a request for the account `acc` and a model, as a stream or not, is counted under
/// `m`.
pub open spec fn counted_under(acc: Tree, model: Seq<char>, stream: bool, m: UsageMeta) -> bool {
    &&& m.uid@ == acc.text_or_empty("uid"@)
    &&& m.nickname@ == acc.text_or_empty("nickname"@)
    &&& m.model@ == model
    &&& m.stream == stream
}

/// What a request is counted under.
pub fn chat_meta(acc: &Json, wish: &Wish) -> (r: UsageMeta)
    ensures
        counted_under(acc.tree(), wish.model@, wish.stream, r),
{
    UsageMeta {
        uid: acc.str_or_empty("uid"),
        nickname: acc.str_or_empty("nickname"),
        model: wish.model.as_str().to_owned(),
        stream: wish.stream,
    }
}

/// How asking upstream for a completion ended.
pub enum Outcome {
    /// No account could be taken.
    NoAccount,
    /// The client could not be set up.
    NoClient(String),
    /// Upstream could not be reached.
    Unreachable(String),
    /// Upstream answered with a status that is no success, and a text.
    Refused(u16, String),
    /// The stream was put together into an answer.
    Answered(Json),
    /// The stream broke off before the answer was complete.
    Broken(String),
}

/// What is entered into the statistics.
pub enum Entry {
    /// Nothing.
    Nothing,
    /// A request that failed.
    Failure,
    /// A request that succeeded, with the usage that was reported.
    Success(Option<Json>),
}

/// What becomes of a request.
pub struct Verdict {
    /// The reply to the client.
    pub reply: Reply,
    /// Whether the account counts as failed.
    pub failed: bool,
    /// What is entered into the statistics.
    pub entry: Entry,
}

/// Whether a status is a success.
pub open spec fn success(status: int) -> bool {
    200 <= status < 300
}

/// Whether a status is a success.
pub fn is_success(status: u16) -> (r: bool)
    ensures
        r == success(status as int),
{
    200 <= status && status < 300
}

/// What is done with an answer from upstream.
#[derive(Clone, Copy, Debug, PartialEq, Eq, Structural)]
pub enum Route {
    /// Its text is read, and the request has failed.
    ReadError,
    /// Its stream is regrouped and passed on.
    PassOn,
    /// Its stream is put together into one answer.
    Collect,
}

/// Decides what is done with an answer from upstream with the status `status`.
pub fn route(status: u16, wish: &Wish) -> (r: Route)
    ensures
        r == if !success(status as int) {
            Route::ReadError
        } else if wish.stream {
            Route::PassOn
        } else {
            Route::Collect
        },
{
    if !is_success(status) {
        Route::ReadError
    } else if wish.stream {
        Route::PassOn
    } else {
        Route::Collect
    }
}

/// The status that a client gets for a status from upstream.
pub open spec fn passed_on(status: int) -> int {
    if 100 <= status < 1000 {
        status
    } else {
        502
    }
}

/// Whether `v` is what becomes of a request that ended as `outcome` says.
pub open spec fn ruled(outcome: Outcome, v: Verdict) -> bool {
    match outcome {
        Outcome::NoAccount => v.reply.shows(
            503,
            error_of("no available account (all cooling down or needs relogin)"@),
        ) && !v.failed && v.entry is Nothing,
        Outcome::NoClient(e) => v.reply.says(500, e@) && !v.failed && v.entry is Failure,
        Outcome::Unreachable(e) => v.reply.says(502, e@) && v.failed && v.entry is Failure,
        Outcome::Refused(status, text) => v.reply.shows(
            passed_on(status as int),
            upstream_error_of(text@),
        ) && v.failed && v.entry is Failure,
        Outcome::Answered(doc) => v.reply.shows(200, doc.tree()) && !v.failed && (match v.entry {
            Entry::Success(u) => kept(u) == doc.tree().get("usage"@),
            _ => false,
        }),
        Outcome::Broken(e) => v.reply.says(502, e@) && !v.failed && v.entry is Failure,
    }
}

/// Decides what becomes of a request that ended without a stream.
pub fn conclude(outcome: &Outcome) -> (r: Verdict)
    ensures
        ruled(*outcome, r),
{
    match outcome {
        Outcome::NoAccount => Verdict {
            reply: error_reply(
                503,
                "no available account (all cooling down or needs relogin)",
            ),
            failed: false,
            entry: Entry::Nothing,
        },
        Outcome::NoClient(e) => Verdict {
            reply: text_reply(500, e.as_str()),
            failed: false,
            entry: Entry::Failure,
        },
        Outcome::Unreachable(e) => Verdict {
            reply: text_reply(502, e.as_str()),
            failed: true,
            entry: Entry::Failure,
        },
        Outcome::Refused(status, text) => {
            let status: u16 = if 100 <= *status && *status < 1000 {
                *status
            } else {
                502
            };
            Verdict {
                reply: upstream_error_reply(status, text.as_str()),
                failed: true,
                entry: Entry::Failure,
            }
        },
        Outcome::Answered(doc) => {
            let usage = match doc.get("usage") {
                Some(u) => Some(u.copy()),
                None => None,
            };
            Verdict {
                reply: document_reply(doc.copy()),
                failed: false,
                entry: Entry::Success(usage),
            }
        },
        Outcome::Broken(e) => Verdict {
            reply: text_reply(502, e.as_str()),
            failed: false,
            entry: Entry::Failure,
        },
    }
}

/// How passing a stream on ended.
#[derive(Clone, Copy, Debug, PartialEq, Eq, Structural)]
pub enum StreamEnd {
    /// Upstream ended it.
    Ended,
    /// The client left before.
    Left,
    /// It was broken off on the way from upstream.
    Broken,
}

/// Whether `r` is entered for a stream that ended as `end` says and told the usage `usage`.
pub open spec fn stream_entered(end: StreamEnd, usage: Option<Tree>, r: Entry) -> bool {
    match r {
        Entry::Nothing => false,
        Entry::Failure => end == StreamEnd::Broken,
        Entry::Success(u) => end != StreamEnd::Broken && kept(u) == usage,
    }
}

/// Decides what is entered into the statistics once a stream is over. One that the client
/// left counts as served.
pub fn conclude_stream(pump: &Pump, end: StreamEnd) -> (r: Entry)
    ensures
        stream_entered(end, last_usage(lines(pump.seen())), r),
{
    match end {
        StreamEnd::Broken => Entry::Failure,
        StreamEnd::Ended | StreamEnd::Left => Entry::Success(pump.usage()),
    }
}

/// What a chat completion is waiting for.
#[derive(Clone, Copy, Debug, PartialEq, Eq, Structural)]
pub enum ChatStage {
    /// An account.
    Taking,
    /// A client for upstream.
    Building,
    /// The status of upstream's answer.
    Sending,
    /// The text of an answer that is no success.
    Reading,
    /// The answer that the stream is put together into.
    Collecting,
    /// Nothing: it is over, or its stream is being passed on.
    Over,
}

/// What has happened.
pub enum ChatEvent {
    /// An account was taken, or none was there.
    Account(Option<Json>),
    /// The client for upstream was set up, or not.
    Client(Result<(), String>),
    /// Upstream answered with a status, or could not be reached.
    Sent(Result<u16, String>),
    /// The text of an answer that is no success.
    ErrorText(String),
    /// The stream was put together into an answer, or broke off.
    Collected(Result<Json, String>),
}

/// What is done next.
pub enum ChatAct {
    /// An account is taken.
    TakeAccount,
    /// A client for upstream is set up.
    BuildClient,
    /// This body is sent to upstream for this account.
    Send(Json, Json),
    /// The text of the answer is read.
    ReadText,
    /// The stream is put together into one answer of this model.
    Collect(String),
    /// The stream is regrouped and passed on.
    PassOn,
    /// The request is over.
    Finish(Verdict),
    /// The request is refused.
    Refuse(Reply),
}

/// How far a chat completion has come.
#[verifier::ext_equal]
pub struct Exchange {
    pub stage: ChatStage,
    pub stream: bool,
    pub model: Seq<char>,
    pub incoming: Tree,
    pub account: Tree,
    pub status: u16,
}

/// Whether an event is what a chat completion is waiting for.
pub open spec fn chat_awaits(stage: ChatStage, e: ChatEvent) -> bool {
    match e {
        ChatEvent::Account(_) => stage == ChatStage::Taking,
        ChatEvent::Client(_) => stage == ChatStage::Building,
        ChatEvent::Sent(_) => stage == ChatStage::Sending,
        ChatEvent::ErrorText(_) => stage == ChatStage::Reading,
        ChatEvent::Collected(_) => stage == ChatStage::Collecting,
    }
}

/// Whether an act ends a request as `outcome` says.
pub open spec fn finishes(a: ChatAct, outcome: Outcome) -> bool {
    match a {
        ChatAct::Finish(v) => ruled(outcome, v),
        _ => false,
    }
}

/// The exchange at another stage.
pub open spec fn at_stage(x: Exchange, stage: ChatStage) -> Exchange {
    Exchange { stage, ..x }
}

/// Whether the event `e` leads from `x` to `y` and to the act `a`.
pub open spec fn chat_step(x: Exchange, e: ChatEvent, y: Exchange, a: ChatAct) -> bool {
    match e {
        ChatEvent::Account(None) => y == at_stage(x, ChatStage::Over) && finishes(
            a,
            Outcome::NoAccount,
        ),
        ChatEvent::Account(Some(acc)) => y == (Exchange {
            stage: ChatStage::Building,
            account: acc.tree(),
            ..x
        }) && a is BuildClient,
        ChatEvent::Client(Err(m)) => y == at_stage(x, ChatStage::Over) && finishes(
            a,
            Outcome::NoClient(m),
        ),
        ChatEvent::Client(Ok(_)) => y == at_stage(x, ChatStage::Sending) && (match a {
            ChatAct::Send(acc, body) => acc.tree() == x.account && body.tree() == upstream_body(
                x.incoming,
            ),
            _ => false,
        }),
        ChatEvent::Sent(Err(m)) => y == at_stage(x, ChatStage::Over) && finishes(
            a,
            Outcome::Unreachable(m),
        ),
        ChatEvent::Sent(Ok(status)) => if !success(status as int) {
            y == (Exchange { stage: ChatStage::Reading, status, ..x }) && a is ReadText
        } else if x.stream {
            y == at_stage(x, ChatStage::Over) && a is PassOn
        } else {
            y == at_stage(x, ChatStage::Collecting) && (match a {
                ChatAct::Collect(model) => model@ == x.model,
                _ => false,
            })
        },
        ChatEvent::ErrorText(text) => y == at_stage(x, ChatStage::Over) && finishes(
            a,
            Outcome::Refused(x.status, text),
        ),
        ChatEvent::Collected(Ok(doc)) => y == at_stage(x, ChatStage::Over) && finishes(
            a,
            Outcome::Answered(doc),
        ),
        ChatEvent::Collected(Err(m)) => y == at_stage(x, ChatStage::Over) && finishes(
            a,
            Outcome::Broken(m),
        ),
    }
}

/// Whether a chat completion for the request `incoming` begins with `x` and `a`, given
/// whether the client is admitted.
pub open spec fn chat_opened(admitted: bool, incoming: Tree, x: Exchange, a: ChatAct) -> bool {
    &&& x == (Exchange {
        stage: if admitted {
            ChatStage::Taking
        } else {
            ChatStage::Over
        },
        stream: wants_stream(incoming),
        model: model_of(incoming),
        incoming,
        account: Tree::Null,
        status: 0,
    })
    &&& match a {
        ChatAct::TakeAccount => admitted,
        ChatAct::Refuse(reply) => !admitted && reply.shows(401, error_of("invalid api key"@)),
        _ => false,
    }
}

/// One chat completion.
pub struct Chat {
    stage: ChatStage,
    wish: Wish,
    incoming: Json,
    account: Json,
    status: u16,
}

/// Begins a chat completion for a request with the authorization header `header`.
pub fn chat_completions(header: Option<&str>, cfg: &ProxyConfig, incoming: Json) -> (r: (
    Chat,
    ChatAct,
))
    ensures
        chat_opened(
            admitted(opt_str(header), cfg.api_key@),
            incoming.tree(),
            r.0.exchange(),
            r.1,
        ),
{
    let wish = wish_of(&incoming);
    let (stage, act) = if check_auth(header, cfg) {
        (ChatStage::Taking, ChatAct::TakeAccount)
    } else {
        (ChatStage::Over, ChatAct::Refuse(unauthorized()))
    };
    (Chat { stage, wish, incoming, account: Json::Null, status: 0 }, act)
}

impl Chat {
    /// How far it has come.
    pub closed spec fn exchange(self) -> Exchange {
        Exchange {
            stage: self.stage,
            stream: self.wish.stream,
            model: self.wish.model@,
            incoming: self.incoming.tree(),
            account: self.account.tree(),
            status: self.status,
        }
    }

    /// What the request is counted under.
    pub fn meta(&self) -> (r: UsageMeta)
        ensures
            counted_under(
                self.exchange().account,
                self.exchange().model,
                self.exchange().stream,
                r,
            ),
    {
        chat_meta(&self.account, &self.wish)
    }

    /// What it is waiting for.
    pub fn stage(&self) -> (r: ChatStage)
        ensures
            r == self.exchange().stage,
    {
        self.stage
    }

    /// Ends as `outcome` says.
    fn end(&mut self, outcome: Outcome) -> (r: ChatAct)
        ensures
            final(self).exchange() == at_stage(old(self).exchange(), ChatStage::Over),
            finishes(r, outcome),
    {
        self.stage = ChatStage::Over;
        ChatAct::Finish(conclude(&outcome))
    }

    /// Takes what has happened and decides what is done next.
    pub fn next(&mut self, event: ChatEvent) -> (r: ChatAct)
        requires
            chat_awaits(old(self).exchange().stage, event),
        ensures
            chat_step(old(self).exchange(), event, final(self).exchange(), r),
    {
        match event {
            ChatEvent::Account(found) => match found {
                None => self.end(Outcome::NoAccount),
                Some(acc) => {
                    self.account = acc;
                    self.stage = ChatStage::Building;
                    ChatAct::BuildClient
                },
            },
            ChatEvent::Client(built) => match built {
                Err(m) => self.end(Outcome::NoClient(m)),
                Ok(_) => {
                    self.stage = ChatStage::Sending;
                    ChatAct::Send(self.account.copy(), build_upstream_body(&self.incoming))
                },
            },
            ChatEvent::Sent(sent) => match sent {
                Err(m) => self.end(Outcome::Unreachable(m)),
                Ok(status) => match route(status, &self.wish) {
                    Route::ReadError => {
                        self.status = status;
                        self.stage = ChatStage::Reading;
                        ChatAct::ReadText
                    },
                    Route::PassOn => {
                        self.stage = ChatStage::Over;
                        ChatAct::PassOn
                    },
                    Route::Collect => {
                        self.stage = ChatStage::Collecting;
                        ChatAct::Collect(self.wish.model.as_str().to_owned())
                    },
                },
            },
            ChatEvent::ErrorText(text) => {
                let status = self.status;
                self.end(Outcome::Refused(status, text))
            },
            ChatEvent::Collected(collected) => match collected {
                Ok(doc) => self.end(Outcome::Answered(doc)),
                Err(m) => self.end(Outcome::Broken(m)),
            },
        }
    }
}

/// Whether an act counts the account as failed.
pub open spec fn fails_account(a: ChatAct) -> bool {
    a matches ChatAct::Finish(v) && v.failed
}

/// An account counts as failed just if upstream could not be reached with it, or
/// answered with a status that is no success.
pub proof fn account_fails_with_upstream(x: Exchange, e: ChatEvent, y: Exchange, a: ChatAct)
    requires
        chat_awaits(x.stage, e),
        chat_step(x, e, y, a),
    ensures
        fails_account(a) <==> (e is ErrorText || (e matches ChatEvent::Sent(r) && r is Err)),
{
}

/// Whether an act enters the request into the statistics.
pub open spec fn enters(a: ChatAct) -> bool {
    a matches ChatAct::Finish(v) && !(v.entry is Nothing)
}

/// Every request that an account was taken for is entered into the statistics, and
/// once: when it is over, however it ended, or, if its stream is passed on, when the
/// stream ends.
pub proof fn every_request_is_entered(x: Exchange, e: ChatEvent, y: Exchange, a: ChatAct)
    requires
        chat_awaits(x.stage, e),
        chat_step(x, e, y, a),
    ensures
        enters(a) <==> a is Finish && x.stage != ChatStage::Taking,
        a is PassOn ==> x.stream && (e matches ChatEvent::Sent(r) && r is Ok),
        y.stage == ChatStage::Over <==> a is Finish || a is PassOn,
{
}

/// Upstream is sent nothing but the rewritten request, and only for an account that
/// was taken.
pub proof fn only_the_rewritten_request_is_sent(
    x: Exchange,
    e: ChatEvent,
    y: Exchange,
    acc: Json,
    body: Json,
)
    requires
        chat_awaits(x.stage, e),
        chat_step(x, e, y, ChatAct::Send(acc, body)),
    ensures
        x.stage == ChatStage::Building,
        acc.tree() == x.account,
        body.tree() == upstream_body(x.incoming),
        body.tree().get("stream"@) == Some(Tree::Bool(true)),
{
    upstream_gets_a_stream(x.incoming, "stream"@);
}

/// The headers of a reply that is a stream.
pub open spec fn stream_header_texts() -> Seq<(Seq<char>, Seq<char>)> {
    seq![
        ("Content-Type"@, "text/event-stream; charset=utf-8"@),
        ("Cache-Control"@, "no-cache"@),
        ("X-Accel-Buffering"@, "no"@),
    ]
}

/// The headers of a reply that is a stream.
pub fn stream_headers() -> (r: Vec<(&'static str, &'static str)>)
    ensures
        r@.map_values(|p: (&'static str, &'static str)| (p.0@, p.1@)) == stream_header_texts(),
{
    let r = vec![
        ("Content-Type", "text/event-stream; charset=utf-8"),
        ("Cache-Control", "no-cache"),
        ("X-Accel-Buffering", "no"),
    ];
    assert(r@.map_values(|p: (&'static str, &'static str)| (p.0@, p.1@))
        =~= stream_header_texts());
    r
}

} // verus!
