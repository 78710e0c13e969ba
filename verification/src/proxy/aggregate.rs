//! A streamed chat completion put together into one answer, for clients that do
//! not want a stream.

use vstd::prelude::*;

use crate::json::{kept, Json, Tree};
use crate::text::{
    chars_between, chars_of, decode_lossy, lemma_until, right_trimmed, scan, trim_right, until,
    utf8_lossy, Class,
};
use super::frame::{carries_tool, delta_str, delta_text};
use super::pump::{absorbed_all, emitted_all, ending, fresh, Field};
use super::stream_laws::{has_place, said, stream_tells_the_same, told, told_all, Item};
use super::usage::{document_of_line, line_document};

verus! {

/// The complete lines of a text, without the carriage returns at their ends.
pub open spec fn full_lines(s: Seq<char>) -> Seq<Seq<char>>
    decreases s.len(),
{
    let k = until(s, '\n') as int;
    if k < s.len() {
        seq![trim_right(s.take(k), Class::Return)] + full_lines(s.skip(k + 1))
    } else {
        Seq::empty()
    }
}

/// What follows the complete lines of a text.
pub open spec fn open_line(s: Seq<char>) -> Seq<char>
    decreases s.len(),
{
    let k = until(s, '\n') as int;
    if k < s.len() {
        open_line(s.skip(k + 1))
    } else {
        s
    }
}

/// The documents on lines.
pub open spec fn documents(ls: Seq<Seq<char>>) -> Seq<Tree>
    decreases ls.len(),
{
    if ls.len() == 0 {
        Seq::empty()
    } else {
        match line_document(ls.last()) {
            Some(v) => documents(ls.drop_last()).push(v),
            None => documents(ls.drop_last()),
        }
    }
}

/// An answer as far as it has come.
#[verifier::ext_equal]
pub struct Answer {
    pub id: Seq<char>,
    pub content: Seq<char>,
    pub reasoning: Seq<char>,
    pub usage: Option<Tree>,
}

/// The answer before the first document.
pub open spec fn no_answer() -> Answer {
    Answer { id: Seq::empty(), content: Seq::empty(), reasoning: Seq::empty(), usage: None }
}

/// The answer with one more document: the first identifier counts, the last usage,
/// and all text.
pub open spec fn answered(a: Answer, v: Tree) -> Answer {
    Answer {
        id: if a.id.len() == 0 {
            match v.text_of("id"@) {
                Some(s) => s,
                None => a.id,
            }
        } else {
            a.id
        },
        content: a.content + delta_text(v, "content"@),
        reasoning: a.reasoning + delta_text(v, "reasoning_content"@),
        usage: match v.get("usage"@) {
            Some(u) => Some(u),
            None => a.usage,
        },
    }
}

/// The answer with more documents.
pub open spec fn answered_all(a: Answer, vs: Seq<Tree>) -> Answer
    decreases vs.len(),
{
    if vs.len() == 0 {
        a
    } else {
        answered(answered_all(a, vs.drop_last()), vs.last())
    }
}

/// The message of a finished answer.
pub open spec fn message_of(a: Answer) -> Tree {
    Tree::Dict(
        Map::<Seq<char>, Tree>::empty().insert("role"@, Tree::Text("assistant"@)).insert(
            "content"@,
            Tree::Text(a.content),
        ).insert("reasoning_content"@, Tree::Text(a.reasoning)),
    )
}

/// The whole seconds of a time in milliseconds.
pub open spec fn whole_seconds(ms: int) -> int {
    ms / 1000
}

/// The finished answer, as OpenAI clients expect it.
pub open spec fn completion_of(a: Answer, id: Seq<char>, created: int, model: Seq<char>) -> Tree {
    let choice = Tree::Dict(
        Map::<Seq<char>, Tree>::empty().insert("index"@, Tree::Int(0)).insert(
            "message"@,
            message_of(a),
        ).insert("finish_reason"@, Tree::Text("stop"@)),
    );
    Tree::Dict(
        Map::<Seq<char>, Tree>::empty().insert(
            "id"@,
            Tree::Text(
                if a.id.len() == 0 {
                    id
                } else {
                    a.id
                },
            ),
        ).insert("object"@, Tree::Text("chat.completion"@)).insert(
            "created"@,
            Tree::Int(created),
        ).insert("model"@, Tree::Text(model)).insert("choices"@, Tree::List(seq![choice])).insert(
            "usage"@,
            match a.usage {
                Some(u) => u,
                None => Tree::Null,
            },
        ),
    )
}

/// Puts the documents of one streamed chat completion together.
pub struct Aggregate {
    id: String,
    content: String,
    reasoning: String,
    usage: Option<Json>,
    buf: Vec<char>,
}

impl Aggregate {
    /// The answer as far as it has come.
    pub closed spec fn answer(self) -> Answer {
        Answer {
            id: self.id@,
            content: self.content@,
            reasoning: self.reasoning@,
            usage: kept(self.usage),
        }
    }

    /// The text after the last complete line.
    pub closed spec fn pending(self) -> Seq<char> {
        self.buf@
    }

    /// An answer that is about to begin.
    pub fn new() -> (r: Aggregate)
        ensures
            r.answer() == no_answer(),
            r.pending() == Seq::<char>::empty(),
    {
        Aggregate {
            id: String::new(),
            content: String::new(),
            reasoning: String::new(),
            usage: None,
            buf: Vec::new(),
        }
    }

    /// Takes one document of the stream.
    pub fn absorb(&mut self, v: &Json)
        ensures
            final(self).answer() == answered(old(self).answer(), v.tree()),
            final(self).pending() == old(self).pending(),
    {
        if self.id.as_str().is_empty() {
            match v.str_of("id") {
                Some(s) => {
                    self.id = s.to_owned();
                },
                None => {},
            }
        }
        match v.get("usage") {
            Some(u) => {
                self.usage = Some(u.copy());
            },
            None => {},
        }
        let content = delta_str(v, "content");
        self.content.append(content.as_str());
        let reasoning = delta_str(v, "reasoning_content");
        self.reasoning.append(reasoning.as_str());
        assert(self.answer() =~= answered(old(self).answer(), v.tree()));
    }

    /// Takes a piece of the text of the stream. What is not yet a whole line waits
    /// for the next piece.
    pub fn feed_text(&mut self, text: &str)
        ensures
            ({
                let whole = old(self).pending() + text@;
                &&& final(self).pending() == open_line(whole)
                &&& final(self).answer() == answered_all(
                    old(self).answer(),
                    documents(full_lines(whole)),
                )
            }),
    {
        let ghost a0 = self.answer();
        let mut whole: Vec<char> = Vec::new();
        whole.append(&mut self.buf);
        let mut more = chars_of(text);
        whole.append(&mut more);
        let ghost w = whole@;
        assert(w =~= old(self).pending() + text@);
        let mut pos: usize = 0;
        let ghost mut done: Seq<Seq<char>> = Seq::empty();
        proof {
            assert(w.skip(0) == w);
            assert(done + full_lines(w) =~= full_lines(w));
            assert(self.answer() =~= a0);
        }
        loop
            invariant
                whole@ == w,
                pos <= w.len(),
                full_lines(w) == done + full_lines(w.skip(pos as int)),
                open_line(w) == open_line(w.skip(pos as int)),
                self.answer() == answered_all(a0, documents(done)),
            ensures
                full_lines(w) == done,
                open_line(w) == w.skip(pos as int),
                pos <= w.len(),
            decreases w.len() - pos,
        {
            let k = scan(&whole, '\n', pos);
            let ghost rest = w.skip(pos as int);
            if k == whole.len() {
                assert(done + full_lines(rest) =~= done);
                break ;
            }
            let raw = chars_between(&whole, pos, k);
            let line = right_trimmed(&raw, Class::Return);
            proof {
                assert(raw@ == rest.take(k - pos));
                assert(rest.skip(k - pos + 1) == w.skip(k + 1));
                assert(done + full_lines(rest) =~= done.push(line@) + full_lines(w.skip(k + 1)));
                assert(done.push(line@).drop_last() == done);
            }
            let ghost earlier = documents(done);
            match document_of_line(&line) {
                Some(v) => {
                    self.absorb(&v);
                    proof {
                        assert(documents(done.push(line@)) == earlier.push(v.tree()));
                        assert(earlier.push(v.tree()).drop_last() == earlier);
                    }
                },
                None => {
                    assert(documents(done.push(line@)) == earlier);
                },
            }
            proof {
                done = done.push(line@);
            }
            pos = k + 1;
        }
        self.buf = chars_between(&whole, pos, whole.len());
        assert(self.buf@ == w.skip(pos as int));
    }

    /// Takes a piece of the bytes of the stream.
    pub fn feed(&mut self, bytes: &[u8])
        ensures
            ({
                let whole = old(self).pending() + utf8_lossy(bytes@);
                &&& final(self).pending() == open_line(whole)
                &&& final(self).answer() == answered_all(
                    old(self).answer(),
                    documents(full_lines(whole)),
                )
            }),
    {
        let text = decode_lossy(bytes);
        self.feed_text(text.as_str())
    }

    /// The finished answer at the time `now_ms`, under the name `fresh_id` if
    /// upstream gave none.
    pub fn finish(&self, fresh_id: &str, now_ms: u64, model: &str) -> (r: Json)
        ensures
            r.tree() == completion_of(
                self.answer(),
                fresh_id@,
                whole_seconds(now_ms as int),
                model@,
            ),
    {
        let mut message = Json::dict();
        message.set("role", Json::text("assistant"));
        message.set("content", Json::text(self.content.as_str()));
        message.set("reasoning_content", Json::text(self.reasoning.as_str()));
        let mut choice = Json::dict();
        choice.set("index", Json::integer(0));
        choice.set("message", message);
        choice.set("finish_reason", Json::text("stop"));
        let mut list: Vec<Json> = Vec::new();
        list.push(choice);
        let choices = Json::List(list);
        assert(choices.tree()->List_0 =~= seq![choice.tree()]);
        let mut r = Json::dict();
        let id = if self.id.as_str().is_empty() {
            Json::text(fresh_id)
        } else {
            Json::text(self.id.as_str())
        };
        r.set("id", id);
        r.set("object", Json::text("chat.completion"));
        let created: u64 = now_ms / 1000;
        r.set("created", Json::integer(created as i64));
        r.set("model", Json::text(model));
        r.set("choices", choices);
        let usage = match &self.usage {
            Some(u) => u.copy(),
            None => Json::Null,
        };
        r.set("usage", usage);
        r
    }
}

/// Cutting a text into lines after each piece finds the lines of the whole, and
/// leaves the same rest.
pub proof fn lines_in_pieces(a: Seq<char>, b: Seq<char>)
    ensures
        full_lines(a + b) == full_lines(a) + full_lines(open_line(a) + b),
        open_line(a + b) == open_line(open_line(a) + b),
    decreases a.len(),
{
    let k = until(a, '\n') as int;
    lemma_until(a, '\n');
    if k < a.len() {
        lemma_until_append(a, b, '\n');
        assert((a + b).take(k) =~= a.take(k));
        assert((a + b).skip(k + 1) =~= a.skip(k + 1) + b);
        lines_in_pieces(a.skip(k + 1), b);
        assert(full_lines(a + b) =~= full_lines(a) + full_lines(open_line(a) + b));
    } else {
        assert(full_lines(a) + full_lines(a + b) =~= full_lines(a + b));
    }
}

/// A character that occurs before more text follows occurs first at the same place.
proof fn lemma_until_append(a: Seq<char>, b: Seq<char>, c: char)
    requires
        until(a, c) < a.len(),
    ensures
        until(a + b, c) == until(a, c),
    decreases a.len(),
{
    assert((a + b)[0] == a[0]);
    if a[0] != c {
        assert((a + b).skip(1) =~= a.skip(1) + b);
        lemma_until_append(a.skip(1), b, c);
    }
}

/// The documents on lines one after the other.
proof fn lemma_documents_append(a: Seq<Seq<char>>, b: Seq<Seq<char>>)
    ensures
        documents(a + b) == documents(a) + documents(b),
    decreases b.len(),
{
    if b.len() == 0 {
        assert(a + b =~= a);
        assert(documents(a) + documents(b) =~= documents(a));
    } else {
        assert((a + b).drop_last() =~= a + b.drop_last());
        assert((a + b).last() == b.last());
        lemma_documents_append(a, b.drop_last());
        assert(documents(a + b) =~= documents(a) + documents(b));
    }
}

/// Answering documents one after the other.
proof fn lemma_answered_append(r: Answer, a: Seq<Tree>, b: Seq<Tree>)
    ensures
        answered_all(r, a + b) == answered_all(answered_all(r, a), b),
    decreases b.len(),
{
    if b.len() == 0 {
        assert(a + b =~= a);
    } else {
        assert((a + b).drop_last() =~= a + b.drop_last());
        assert((a + b).last() == b.last());
        lemma_answered_append(r, a, b.drop_last());
    }
}

/// Where the text of a stream is cut does not matter: with `pending` text and the
/// answer `r` so far, feeding `a` and then `b` leaves the same answer and the same
/// pending text as feeding them at once.
pub proof fn answering_in_pieces(r: Answer, pending: Seq<char>, a: Seq<char>, b: Seq<char>)
    ensures
        ({
            let once = documents(full_lines(pending + (a + b)));
            let first = documents(full_lines(pending + a));
            let second = documents(full_lines(open_line(pending + a) + b));
            &&& answered_all(r, once) == answered_all(answered_all(r, first), second)
            &&& open_line(pending + (a + b)) == open_line(open_line(pending + a) + b)
        }),
{
    assert(pending + (a + b) =~= (pending + a) + b);
    lines_in_pieces(pending + a, b);
    lemma_documents_append(full_lines(pending + a), full_lines(open_line(pending + a) + b));
    lemma_answered_append(
        r,
        documents(full_lines(pending + a)),
        documents(full_lines(open_line(pending + a) + b)),
    );
}

/// The characters of one kind among items.
pub open spec fn spoken(items: Seq<Item>, field: Field) -> Seq<char>
    decreases items.len(),
{
    if items.len() == 0 {
        Seq::empty()
    } else {
        let before = spoken(items.drop_last(), field);
        match items.last() {
            Item::Said((f, c)) => if f == field {
                before.push(c)
            } else {
                before
            },
            Item::Tool(_) => before,
        }
    }
}

/// The characters of one kind among items one after the other.
proof fn lemma_spoken_append(a: Seq<Item>, b: Seq<Item>, field: Field)
    ensures
        spoken(a + b, field) == spoken(a, field) + spoken(b, field),
    decreases b.len(),
{
    if b.len() == 0 {
        assert(a + b =~= a);
        assert(spoken(a, field) + spoken(b, field) =~= spoken(a, field));
    } else {
        assert((a + b).drop_last() =~= a + b.drop_last());
        assert((a + b).last() == b.last());
        lemma_spoken_append(a, b.drop_last(), field);
        assert(spoken(a + b, field) =~= spoken(a, field) + spoken(b, field));
    }
}

/// The characters of a text of one kind are that text, and none of another kind.
proof fn lemma_spoken_said(of: Field, s: Seq<char>, field: Field)
    ensures
        spoken(said(of, s), field) == if of == field {
            s
        } else {
            Seq::empty()
        },
    decreases s.len(),
{
    if s.len() == 0 {
        assert(said(of, s) =~= Seq::<Item>::empty());
    } else {
        assert(said(of, s).drop_last() =~= said(of, s.drop_last()));
        assert(said(of, s).last() == Item::Said((of, s.last())));
        lemma_spoken_said(of, s.drop_last(), field);
        assert(s =~= s.drop_last().push(s.last()));
    }
}

/// An answer holds all content and all reasoning that documents without tool calls
/// tell, in order.
pub proof fn answer_holds_what_is_told(vs: Seq<Tree>)
    requires
        forall|i: int| 0 <= i < vs.len() ==> !carries_tool(#[trigger] vs[i]),
    ensures
        answered_all(no_answer(), vs).content == spoken(told_all(vs), Field::Content),
        answered_all(no_answer(), vs).reasoning == spoken(told_all(vs), Field::Reasoning),
    decreases vs.len(),
{
    if vs.len() > 0 {
        let before = vs.drop_last();
        let v = vs.last();
        assert forall|i: int| 0 <= i < before.len() implies !carries_tool(
            #[trigger] before[i],
        ) by {
            assert(before[i] == vs[i]);
        }
        assert(!carries_tool(vs[vs.len() - 1]));
        answer_holds_what_is_told(before);
        let r = said(Field::Reasoning, delta_text(v, "reasoning_content"@));
        let c = said(Field::Content, delta_text(v, "content"@));
        lemma_spoken_append(told_all(before), told(v), Field::Content);
        lemma_spoken_append(told_all(before), told(v), Field::Reasoning);
        lemma_spoken_append(r, c, Field::Content);
        lemma_spoken_append(r, c, Field::Reasoning);
        lemma_spoken_said(Field::Reasoning, delta_text(v, "reasoning_content"@), Field::Content);
        lemma_spoken_said(Field::Reasoning, delta_text(v, "reasoning_content"@), Field::Reasoning);
        lemma_spoken_said(Field::Content, delta_text(v, "content"@), Field::Content);
        lemma_spoken_said(Field::Content, delta_text(v, "content"@), Field::Reasoning);
        assert(spoken(told(v), Field::Content) =~= delta_text(v, "content"@));
        assert(spoken(told(v), Field::Reasoning) =~= delta_text(v, "reasoning_content"@));
    }
}

/// With and without a stream a client gets the same text: the answer put together
/// from documents without tool calls holds the content and the reasoning that the
/// frames of the stream made of them tell.
pub proof fn stream_and_answer_agree(vs: Seq<Tree>)
    requires
        vs.len() > 0 ==> has_place(vs[0]),
        forall|i: int| 0 <= i < vs.len() ==> !carries_tool(#[trigger] vs[i]),
    ensures
        ({
            let sent = told_all(emitted_all(fresh(), vs) + ending(absorbed_all(fresh(), vs)));
            let answer = answered_all(no_answer(), vs);
            &&& answer.content == spoken(sent, Field::Content)
            &&& answer.reasoning == spoken(sent, Field::Reasoning)
        }),
{
    stream_tells_the_same(vs);
    answer_holds_what_is_told(vs);
}

/// The names of members that answers are made of differ from each other.
proof fn lemma_answer_names()
    ensures
        "role"@ != "content"@,
        "role"@ != "reasoning_content"@,
        "content"@ != "reasoning_content"@,
        "index"@ != "message"@,
        "index"@ != "finish_reason"@,
        "message"@ != "finish_reason"@,
        "id"@ != "object"@,
        "id"@ != "created"@,
        "id"@ != "model"@,
        "id"@ != "choices"@,
        "id"@ != "usage"@,
        "object"@ != "created"@,
        "object"@ != "model"@,
        "object"@ != "choices"@,
        "object"@ != "usage"@,
        "created"@ != "model"@,
        "created"@ != "choices"@,
        "created"@ != "usage"@,
        "model"@ != "choices"@,
        "model"@ != "usage"@,
        "choices"@ != "usage"@,
{
    reveal_strlit("role");
    reveal_strlit("content");
    reveal_strlit("reasoning_content");
    reveal_strlit("index");
    reveal_strlit("message");
    reveal_strlit("finish_reason");
    reveal_strlit("id");
    reveal_strlit("object");
    reveal_strlit("created");
    reveal_strlit("model");
    reveal_strlit("choices");
    reveal_strlit("usage");
    assert("role"@.len() == 4);
    assert("content"@.len() == 7);
    assert("reasoning_content"@.len() == 17);
    assert("index"@.len() == 5);
    assert("message"@.len() == 7);
    assert("finish_reason"@.len() == 13);
    assert("id"@.len() == 2);
    assert("object"@.len() == 6);
    assert("created"@.len() == 7);
    assert("choices"@.len() == 7);
    assert("created"@[1] == 'r');
    assert("choices"@[1] == 'h');
    assert("model"@.len() == 5);
    assert("usage"@.len() == 5);
    assert("model"@[0] == 'm');
    assert("usage"@[0] == 'u');
}

/// The finished answer has one choice, whose message holds the content and the reasoning of
/// the answer, each whatever the other is; it has the name that upstream gave or else the
/// one made for it, the time, the model and the usage that upstream told, or `null`.
pub proof fn completion_holds_the_answer(a: Answer, id: Seq<char>, created: int, model: Seq<char>)
    ensures
        ({
            let c = completion_of(a, id, created, model);
            &&& c.get("choices"@) matches Some(Tree::List(cs)) && cs.len() == 1 && cs[0].get(
                "index"@,
            ) == Some(Tree::Int(0)) && cs[0].get("finish_reason"@) == Some(Tree::Text("stop"@)) && (
            cs[0].get("message"@) matches Some(m) && m.get("role"@) == Some(
                Tree::Text("assistant"@),
            ) && m.get("content"@) == Some(Tree::Text(a.content)) && m.get("reasoning_content"@)
                == Some(Tree::Text(a.reasoning)))
            &&& c.get("object"@) == Some(Tree::Text("chat.completion"@))
            &&& c.get("created"@) == Some(Tree::Int(created))
            &&& c.get("model"@) == Some(Tree::Text(model))
            &&& a.id.len() > 0 ==> c.get("id"@) == Some(Tree::Text(a.id))
            &&& a.id.len() == 0 ==> c.get("id"@) == Some(Tree::Text(id))
            &&& a.usage matches Some(u) ==> c.get("usage"@) == Some(u)
            &&& a.usage is None ==> c.get("usage"@) == Some(Tree::Null)
        }),
{
    lemma_answer_names();
}

/// The texts `key` of the deltas of documents, one after the other.
pub open spec fn all_text(vs: Seq<Tree>, key: Seq<char>) -> Seq<char>
    decreases vs.len(),
{
    if vs.len() == 0 {
        Seq::empty()
    } else {
        all_text(vs.drop_last(), key) + delta_text(vs.last(), key)
    }
}

/// A finished answer holds all content and all reasoning of the documents it was put
/// together from, in order and nothing else.
pub proof fn completion_holds_all_text(
    vs: Seq<Tree>,
    id: Seq<char>,
    created: int,
    model: Seq<char>,
)
    ensures
        ({
            let c = completion_of(answered_all(no_answer(), vs), id, created, model);
            c.get("choices"@) matches Some(Tree::List(cs)) && cs.len() == 1 && (cs[0].get(
                "message"@,
            ) matches Some(m) && m.get("content"@) == Some(Tree::Text(all_text(vs, "content"@)))
                && m.get("reasoning_content"@) == Some(
                Tree::Text(all_text(vs, "reasoning_content"@)),
            ))
        }),
{
    lemma_all_text(vs);
    completion_holds_the_answer(answered_all(no_answer(), vs), id, created, model);
}

/// An answer holds all text of its documents.
proof fn lemma_all_text(vs: Seq<Tree>)
    ensures
        answered_all(no_answer(), vs).content == all_text(vs, "content"@),
        answered_all(no_answer(), vs).reasoning == all_text(vs, "reasoning_content"@),
    decreases vs.len(),
{
    if vs.len() > 0 {
        lemma_all_text(vs.drop_last());
    }
}

/// The name of an answer is that of the first document that has one that is not empty.
pub proof fn answer_has_the_first_name(vs: Seq<Tree>, i: int, s: Seq<char>)
    requires
        0 <= i < vs.len(),
        vs[i].get("id"@) == Some(Tree::Text(s)),
        s.len() > 0,
        forall|j: int|
            0 <= j < i ==> !((#[trigger] vs[j]).get("id"@) matches Some(Tree::Text(x)) && x.len()
                > 0),
    ensures
        answered_all(no_answer(), vs).id == s,
    decreases vs.len(),
{
    let before = vs.drop_last();
    if i < before.len() {
        assert(before[i] == vs[i]);
        assert forall|j: int| 0 <= j < i implies !((#[trigger] before[j]).get("id"@) matches Some(
            Tree::Text(x),
        ) && x.len() > 0) by {
            assert(before[j] == vs[j]);
        }
        answer_has_the_first_name(before, i, s);
    } else {
        assert forall|j: int| 0 <= j < before.len() implies !((#[trigger] before[j]).get(
            "id"@,
        ) matches Some(Tree::Text(x)) && x.len() > 0) by {
            assert(before[j] == vs[j]);
        }
        answer_without_a_name(before);
        assert(vs.last() == vs[i]);
    }
}

/// An answer whose documents have no name, or an empty one, has none.
pub proof fn answer_without_a_name(vs: Seq<Tree>)
    requires
        forall|j: int|
            0 <= j < vs.len() ==> !((#[trigger] vs[j]).get("id"@) matches Some(Tree::Text(x))
                && x.len() > 0),
    ensures
        answered_all(no_answer(), vs).id.len() == 0,
    decreases vs.len(),
{
    if vs.len() > 0 {
        let before = vs.drop_last();
        assert forall|j: int| 0 <= j < before.len() implies !((#[trigger] before[j]).get(
            "id"@,
        ) matches Some(Tree::Text(x)) && x.len() > 0) by {
            assert(before[j] == vs[j]);
        }
        answer_without_a_name(before);
        assert(vs.last() == vs[vs.len() - 1]);
    }
}

/// The usage of an answer is that of the last document that has one; without any there is
/// none.
pub proof fn answer_has_the_last_usage(vs: Seq<Tree>, i: int)
    requires
        -1 <= i < vs.len(),
        i >= 0 ==> vs[i].get("usage"@) is Some,
        forall|j: int| i < j < vs.len() ==> (#[trigger] vs[j]).get("usage"@) is None,
    ensures
        i >= 0 ==> answered_all(no_answer(), vs).usage == vs[i].get("usage"@),
        i < 0 ==> answered_all(no_answer(), vs).usage is None,
    decreases vs.len(),
{
    if vs.len() > 0 {
        let before = vs.drop_last();
        if i == before.len() {
            assert(vs.last() == vs[i]);
        } else {
            assert(vs[vs.len() - 1] == vs.last());
            if i >= 0 {
                assert(before[i] == vs[i]);
            }
            assert forall|j: int| i < j < before.len() implies (#[trigger] before[j]).get(
                "usage"@,
            ) is None by {
                assert(before[j] == vs[j]);
            }
            answer_has_the_last_usage(before, i);
        }
    }
}

/// The time of an answer is that of its making in seconds, with what is over left out.
pub proof fn seconds_are_whole(ms: int)
    ensures
        whole_seconds(ms) * 1000 <= ms < whole_seconds(ms) * 1000 + 1000,
{
}

} // verus!
