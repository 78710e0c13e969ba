//! What a client is answered, whatever becomes of its request.

use vstd::prelude::*;

use crate::json::{kept, Json, Tree};
use super::chat::{
    chat_awaits, chat_opened, chat_step, counted_under, passed_on, ruled, stream_entered, success,
    wants_stream, ChatAct, ChatEvent, ChatStage, Entry, Exchange, Outcome, StreamEnd, Verdict,
};
use super::reply::{error_of, upstream_error_of, Body, Reply};
use super::upstream::{
    known_setting, lemma_request_names, model_of, upstream_body, upstream_gets_a_stream,
};
use super::usage::UsageMeta;

verus! {

/// The text of a reply that is plain text.
pub open spec fn plain(r: Reply) -> Option<Seq<char>> {
    match r.body {
        Body::Document(_) => None,
        Body::Text(s) => Some(s@),
    }
}

/// The document of a reply that is one.
pub open spec fn document(r: Reply) -> Option<Tree> {
    match r.body {
        Body::Document(j) => Some(j.tree()),
        Body::Text(_) => None,
    }
}

/// The message in the document of an error.
pub open spec fn message(t: Tree) -> Option<Tree> {
    match t.get("error"@) {
        Some(e) => e.get("message"@),
        None => None,
    }
}

/// The document of an error holds its message, and one that upstream reported says so.
pub proof fn errors_hold_their_message(m: Seq<char>)
    ensures
        message(error_of(m)) == Some(Tree::Text(m)),
        message(upstream_error_of(m)) == Some(Tree::Text(m)),
        upstream_error_of(m).get("error"@) matches Some(e) && e.get("type"@) == Some(
            Tree::Text("upstream_error"@),
        ),
        error_of(m).get("error"@) matches Some(e) && e.get("type"@) is None,
{
    reveal_strlit("message");
    reveal_strlit("type");
    assert("message"@.len() == 7);
    assert("type"@.len() == 4);
}

/// A status from 200 to 299 is a success; a status that is none at all becomes that of a bad
/// gateway, and every other is passed on as it is.
pub proof fn statuses_are_passed_on(status: int)
    ensures
        success(status) <==> 200 <= status <= 299,
        100 <= status <= 999 ==> passed_on(status) == status,
        status < 100 || status > 999 ==> passed_on(status) == 502,
{
}

/// What a client is answered: the answer where there is one, and otherwise an error with a
/// status that says whose fault it is, and its text.
pub proof fn every_outcome_is_answered(outcome: Outcome, v: Verdict)
    requires
        ruled(outcome, v),
    ensures
        match outcome {
            Outcome::NoAccount => v.reply.status == 503 && (document(v.reply) matches Some(t)
                && message(t) == Some(
                Tree::Text("no available account (all cooling down or needs relogin)"@),
            )),
            Outcome::NoClient(e) => v.reply.status == 500 && plain(v.reply) == Some(e@),
            Outcome::Unreachable(e) => v.reply.status == 502 && plain(v.reply) == Some(e@),
            Outcome::Refused(status, text) => (100 <= status <= 999 ==> v.reply.status == status)
                && (document(v.reply) matches Some(t) && message(t) == Some(Tree::Text(text@))),
            Outcome::Answered(doc) => v.reply.status == 200 && document(v.reply) == Some(
                doc.tree(),
            ),
            Outcome::Broken(e) => v.reply.status == 502 && plain(v.reply) == Some(e@),
        },
        v.reply.status == 200 ==> outcome is Answered || (outcome matches Outcome::Refused(s, _)
            && s == 200),
{
    errors_hold_their_message("no available account (all cooling down or needs relogin)"@);
    if let Outcome::Refused(_, text) = outcome {
        errors_hold_their_message(text@);
    }
}

/// What is entered: nothing where no account was taken, a success with the usage of the
/// answer where there is one, and otherwise a failure. An account fails only where upstream
/// did not serve it.
pub proof fn every_outcome_is_entered(outcome: Outcome, v: Verdict)
    requires
        ruled(outcome, v),
    ensures
        v.entry is Nothing <==> outcome is NoAccount,
        v.entry is Success <==> outcome is Answered,
        outcome matches Outcome::Answered(doc) ==> (v.entry matches Entry::Success(u) && kept(u)
            == doc.tree().get("usage"@)),
        v.failed <==> outcome is Unreachable || outcome is Refused,
{
}

/// What a client wants stays what it is to the end, and so does the account that was taken.
pub proof fn request_is_kept(x: Exchange, e: ChatEvent, y: Exchange, a: ChatAct)
    requires
        chat_awaits(x.stage, e),
        chat_step(x, e, y, a),
    ensures
        y.incoming == x.incoming,
        y.model == x.model,
        y.stream == x.stream,
        e matches ChatEvent::Account(Some(acc)) ==> y.account == acc.tree(),
        !(e matches ChatEvent::Account(Some(_))) ==> y.account == x.account,
{
}

/// The request is sent for the account that was taken: a model, the messages, and the
/// settings of the client, always as a stream.
pub proof fn request_is_sent_for_the_account(
    x: Exchange,
    acc: Json,
    y: Exchange,
    a: ChatAct,
    z: Exchange,
    b: ChatAct,
    k: Seq<char>,
)
    requires
        x.stage == ChatStage::Taking,
        chat_step(x, ChatEvent::Account(Some(acc)), y, a),
        chat_step(y, ChatEvent::Client(Ok(())), z, b),
    ensures
        a is BuildClient,
        b matches ChatAct::Send(who, body) && who.tree() == acc.tree() && body.tree().get("stream"@)
            == Some(Tree::Bool(true)) && (x.incoming.get("messages"@) matches Some(m)
            ==> body.tree().get("messages"@) == Some(m)) && (known_setting(k) ==> body.tree().get(k)
            == x.incoming.get(k)) && body.tree().get("model"@) == Some(
            Tree::Text(model_of(x.incoming)),
        ),
        chat_awaits(y.stage, ChatEvent::Client(Ok(()))),
{
    upstream_gets_a_stream(x.incoming, k);
}

/// What upstream refuses is passed on to the client, status and text, and fails the account.
pub proof fn refusal_is_passed_on(
    x: Exchange,
    status: u16,
    y: Exchange,
    a: ChatAct,
    text: String,
    z: Exchange,
    b: ChatAct,
)
    requires
        x.stage == ChatStage::Sending,
        !(200 <= status <= 299),
        chat_step(x, ChatEvent::Sent(Ok(status)), y, a),
        chat_step(y, ChatEvent::ErrorText(text), z, b),
    ensures
        a is ReadText,
        chat_awaits(y.stage, ChatEvent::ErrorText(text)),
        b matches ChatAct::Finish(v) && v.failed && v.entry is Failure && (100 <= status <= 999
            ==> v.reply.status == status) && (document(v.reply) matches Some(t) && message(t)
            == Some(Tree::Text(text@))),
{
    errors_hold_their_message(text@);
}

/// An answer of upstream is passed on as a stream just if the client wants one, and put
/// together under the client's model if not; what it is put together into is the reply.
pub proof fn answer_is_passed_on(
    x: Exchange,
    status: u16,
    y: Exchange,
    a: ChatAct,
    doc: Json,
    z: Exchange,
    b: ChatAct,
)
    requires
        x.stage == ChatStage::Sending,
        200 <= status <= 299,
        chat_step(x, ChatEvent::Sent(Ok(status)), y, a),
        !x.stream ==> chat_step(y, ChatEvent::Collected(Ok(doc)), z, b),
    ensures
        x.stream <==> a is PassOn,
        !x.stream ==> (a matches ChatAct::Collect(model) && model@ == x.model) && chat_awaits(
            y.stage,
            ChatEvent::Collected(Ok(doc)),
        ) && (b matches ChatAct::Finish(v) && !v.failed && v.reply.status == 200 && document(
            v.reply,
        ) == Some(doc.tree()) && (v.entry matches Entry::Success(u) && kept(u) == doc.tree().get(
            "usage"@,
        ))),
{
}

/// A client wants a stream just if it says so with the truth value.
pub proof fn streams_are_asked_for(incoming: Tree)
    ensures
        wants_stream(incoming) <==> incoming.get("stream"@) == Some(Tree::Bool(true)),
        incoming.get("model"@) matches Some(Tree::Text(s)) ==> model_of(incoming) == s,
        !(incoming.get("model"@) matches Some(Tree::Text(_))) ==> model_of(incoming)
            == "deepseek-v4-flash"@,
        incoming.get("messages"@) is None ==> upstream_body(incoming).get("messages"@) == Some(
            Tree::List(Seq::empty()),
        ),
{
    lemma_request_names();
}

/// A client that is admitted is served, for what it asked for; one that is not is refused
/// before anything else is done.
pub proof fn clients_without_the_key_are_refused(
    admitted: bool,
    incoming: Tree,
    x: Exchange,
    a: ChatAct,
)
    requires
        chat_opened(admitted, incoming, x, a),
    ensures
        admitted ==> a is TakeAccount && x.stage == ChatStage::Taking,
        !admitted ==> x.stage == ChatStage::Over && (a matches ChatAct::Refuse(reply)
            && reply.status == 401 && (document(reply) matches Some(t) && message(t) == Some(
            Tree::Text("invalid api key"@),
        ))),
        x.incoming == incoming,
        x.stream <==> incoming.get("stream"@) == Some(Tree::Bool(true)),
        incoming.get("model"@) matches Some(Tree::Text(s)) ==> x.model == s,
        !(incoming.get("model"@) matches Some(Tree::Text(_))) ==> x.model == "deepseek-v4-flash"@,
{
    errors_hold_their_message("invalid api key"@);
}

/// A stream counts as a success with the usage that it told, whether upstream ended it or the
/// client left; one that broke off counts as a failure. It is entered in any case.
pub proof fn streams_are_entered(end: StreamEnd, usage: Option<Tree>, r: Entry)
    requires
        stream_entered(end, usage, r),
    ensures
        !(r is Nothing),
        r is Failure <==> end == StreamEnd::Broken,
        end == StreamEnd::Ended || end == StreamEnd::Left ==> (r matches Entry::Success(u)
            && kept(u) == usage),
{
}

/// A request is counted for the account that it was made for, under the identifier and the
/// name of the account, and under the model that the client asked for.
pub proof fn requests_are_counted_for_their_account(
    acc: Tree,
    model: Seq<char>,
    stream: bool,
    m: UsageMeta,
)
    requires
        counted_under(acc, model, stream, m),
    ensures
        match acc.get("uid"@) {
            Some(Tree::Text(s)) => m.uid@ == s,
            _ => m.uid@.len() == 0,
        },
        match acc.get("nickname"@) {
            Some(Tree::Text(s)) => m.nickname@ == s,
            _ => m.nickname@.len() == 0,
        },
        m.model@ == model,
        m.stream == stream,
{
}

} // verus!
