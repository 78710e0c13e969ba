//! Replies of the gateway to its clients.

use vstd::prelude::*;

use crate::json::{Json, Tree};

verus! {

/// The body of a reply.
pub enum Body {
    /// A JSON document.
    Document(Json),
    /// Plain text.
    Text(String),
}

/// A reply: an HTTP status and a body.
pub struct Reply {
    pub status: u16,
    pub body: Body,
}

impl Reply {
    /// Whether this reply has the status `status` and the document `t`.
    pub open spec fn shows(self, status: int, t: Tree) -> bool {
        self.status == status && match self.body {
            Body::Document(j) => j.tree() == t,
            Body::Text(_) => false,
        }
    }

    /// Whether this reply has the status `status` and the plain text `s`.
    pub open spec fn says(self, status: int, s: Seq<char>) -> bool {
        self.status == status && match self.body {
            Body::Document(_) => false,
            Body::Text(x) => x@ == s,
        }
    }
}

/// An object with a single member.
pub open spec fn single(name: Seq<char>, t: Tree) -> Tree {
    Tree::Dict(Map::<Seq<char>, Tree>::empty().insert(name, t))
}

/// The document of an error with a message.
pub open spec fn error_of(message: Seq<char>) -> Tree {
    single("error"@, single("message"@, Tree::Text(message)))
}

/// The document of an error that upstream reported with the text `message`.
pub open spec fn upstream_error_of(message: Seq<char>) -> Tree {
    single(
        "error"@,
        single("message"@, Tree::Text(message)).with("type"@, Tree::Text("upstream_error"@)),
    )
}

/// A reply with an error document.
pub fn error_reply(status: u16, message: &str) -> (r: Reply)
    ensures
        r.shows(status as int, error_of(message@)),
{
    let mut inner = Json::dict();
    inner.set("message", Json::text(message));
    let mut doc = Json::dict();
    doc.set("error", inner);
    Reply { status, body: Body::Document(doc) }
}

/// A reply with the error that upstream reported.
pub fn upstream_error_reply(status: u16, message: &str) -> (r: Reply)
    ensures
        r.shows(status as int, upstream_error_of(message@)),
{
    let mut inner = Json::dict();
    inner.set("message", Json::text(message));
    inner.set("type", Json::text("upstream_error"));
    let mut doc = Json::dict();
    doc.set("error", inner);
    Reply { status, body: Body::Document(doc) }
}

/// A reply with a document.
pub fn document_reply(doc: Json) -> (r: Reply)
    ensures
        r.shows(200, doc.tree()),
{
    Reply { status: 200, body: Body::Document(doc) }
}

/// A reply with plain text.
pub fn text_reply(status: u16, text: &str) -> (r: Reply)
    ensures
        r.says(status as int, text@),
{
    Reply { status, body: Body::Text(text.to_owned()) }
}

/// The reply to a request without the right key.
pub fn unauthorized() -> (r: Reply)
    ensures
        r.shows(401, error_of("invalid api key"@)),
{
    error_reply(401, "invalid api key")
}

} // verus!
