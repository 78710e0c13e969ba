//! The frames of a streamed chat completion: reading their deltas, and building
//! the frames that clients are sent.

use vstd::prelude::*;

use crate::json::{dict_map, json_compact, opt_tree, to_text, trees, Json, Tree};
use crate::text::joined;

verus! {

/// The first of the choices of a frame.
pub open spec fn first_choice(t: Tree) -> Option<Tree> {
    match t.get("choices"@) {
        Some(c) => c.at(0),
        None => None,
    }
}

/// The delta of the first choice of a frame.
pub open spec fn delta(t: Tree) -> Option<Tree> {
    match first_choice(t) {
        Some(c) => c.get("delta"@),
        None => None,
    }
}

/// The text `key` of the delta of a frame, or the empty text.
pub open spec fn delta_text(t: Tree, key: Seq<char>) -> Seq<char> {
    match delta(t) {
        Some(d) => d.text_or_empty(key),
        None => Seq::empty(),
    }
}

/// The finish reason of the first choice of a frame, or the empty text.
pub open spec fn finish_text(t: Tree) -> Seq<char> {
    match first_choice(t) {
        Some(c) => c.text_or_empty("finish_reason"@),
        None => Seq::empty(),
    }
}

/// The first of the choices of a frame.
fn choice_of(frame: &Json) -> (r: Option<&Json>)
    ensures
        opt_tree(r) == first_choice(frame.tree()),
{
    match frame.get("choices") {
        Some(c) => c.at(0),
        None => None,
    }
}

/// The delta of the first choice of a frame.
fn delta_of(frame: &Json) -> (r: Option<&Json>)
    ensures
        opt_tree(r) == delta(frame.tree()),
{
    match choice_of(frame) {
        Some(c) => c.get("delta"),
        None => None,
    }
}

/// The text `choices[0].delta.<key>`; missing or null counts as empty.
pub fn delta_str(frame: &Json, key: &str) -> (r: String)
    ensures
        r@ == delta_text(frame.tree(), key@),
{
    match delta_of(frame) {
        Some(d) => d.str_or_empty(key),
        None => String::new(),
    }
}

/// The text `choices[0].finish_reason`; missing or null counts as empty.
pub fn finish_str(frame: &Json) -> (r: String)
    ensures
        r@ == finish_text(frame.tree()),
{
    match choice_of(frame) {
        Some(c) => c.str_or_empty("finish_reason"),
        None => String::new(),
    }
}

/// Whether a member that should be an array holds anything.
pub open spec fn filled_list(t: Option<Tree>) -> bool {
    match t {
        None | Some(Tree::Null) => false,
        Some(Tree::List(a)) => a.len() > 0,
        Some(_) => true,
    }
}

/// Whether a member that should be an object holds anything.
pub open spec fn filled_dict(t: Option<Tree>) -> bool {
    match t {
        None | Some(Tree::Null) => false,
        Some(Tree::Dict(m)) => m != Map::<Seq<char>, Tree>::empty(),
        Some(_) => true,
    }
}

/// Whether the delta of a frame calls a tool: its `tool_calls` or its
/// `function_call` holds anything.
pub open spec fn carries_tool(t: Tree) -> bool {
    match delta(t) {
        Some(d) => filled_list(d.get("tool_calls"@)) || filled_dict(d.get("function_call"@)),
        None => false,
    }
}

/// An object has a member exactly if it has an entry.
proof fn lemma_filled(m: Seq<(String, Json)>)
    ensures
        m.len() > 0 <==> dict_map(m, m.len()) != Map::<Seq<char>, Tree>::empty(),
{
    if m.len() > 0 {
        assert(dict_map(m, m.len()).dom().contains(m[m.len() - 1].0@));
    } else {
        assert(dict_map(m, 0) == Map::<Seq<char>, Tree>::empty());
    }
}

/// Whether the delta of a frame calls a tool. Such a frame must reach the client
/// as it is: merging looks at the reasoning and the content alone and would lose
/// the call.
pub fn has_tool_delta(frame: &Json) -> (r: bool)
    ensures
        r == carries_tool(frame.tree()),
{
    match delta_of(frame) {
        Some(d) => {
            let calls: bool = match d.get("tool_calls") {
                Some(Json::List(a)) => a.len() > 0,
                Some(Json::Null) => false,
                Some(_) => true,
                None => false,
            };
            let call: bool = match d.get("function_call") {
                Some(Json::Dict(m)) => {
                    proof {
                        lemma_filled(m@);
                        assert(d.tree().get("function_call"@) == Some(
                            Tree::Dict(dict_map(m@, m@.len())),
                        ));
                    }
                    m.len() > 0
                },
                Some(Json::Null) => false,
                Some(_) => true,
                None => false,
            };
            calls || call
        },
        None => false,
    }
}

/// A frame with its first choice replaced.
pub open spec fn with_first_choice(t: Tree, c: Tree) -> Tree {
    match t.get("choices"@) {
        Some(Tree::List(a)) => t.with("choices"@, Tree::List(a.update(0, c))),
        _ => t,
    }
}

/// Replaces the first choice of a frame that has one.
fn set_first_choice(frame: &mut Json, c: Json)
    requires
        first_choice(old(frame).tree()) is Some,
    ensures
        final(frame).tree() == with_first_choice(old(frame).tree(), c.tree()),
{
    let mut list: Vec<Json> = Vec::new();
    list.push(c);
    if let Some(Json::List(a)) = frame.get("choices") {
        let mut i: usize = 1;
        while i < a.len()
            invariant
                1 <= i,
                a.len() >= 1,
                i <= a.len(),
                list@.len() == i,
                list@[0].tree() == c.tree(),
                forall|k: int| 1 <= k < i ==> (#[trigger] list@[k]).tree() == a@[k].tree(),
            decreases a.len() - i,
        {
            list.push(a[i].copy());
            i = i + 1;
        }
        let whole = Json::List(list);
        assert(whole.tree()->List_0 =~= trees(a@).update(0, c.tree()));
        assert(frame.tree().get("choices"@)->0->List_0 =~= trees(a@));
        frame.set("choices", whole);
    }
}

/// A frame whose first choice has `null` for an empty finish reason.
pub open spec fn normalized(t: Tree) -> Tree {
    match first_choice(t) {
        Some(c) => if c.get("finish_reason"@) == Some(Tree::Text(Seq::empty())) {
            with_first_choice(t, c.with("finish_reason"@, Tree::Null))
        } else {
            t
        },
        None => t,
    }
}

/// Writes `null` for an empty finish reason, which upstream gives in the middle of
/// a stream.
pub fn normalize_finish(frame: &mut Json)
    ensures
        final(frame).tree() == normalized(old(frame).tree()),
{
    let fixed = match choice_of(frame) {
        Some(c) => match c.str_of("finish_reason") {
            Some(s) => if s.is_empty() {
                assert(s@ =~= Seq::empty());
                let mut d = c.copy();
                d.set("finish_reason", Json::Null);
                Some(d)
            } else {
                None
            },
            None => None,
        },
        None => None,
    };
    match fixed {
        Some(d) => set_first_choice(frame, d),
        None => {},
    }
}

/// The delta of a merged frame: the role if asked for, and each text that is not
/// empty.
pub open spec fn chunk_delta(reasoning: Seq<char>, content: Seq<char>, with_role: bool) -> Tree {
    let a = Map::<Seq<char>, Tree>::empty();
    let b = if with_role {
        a.insert("role"@, Tree::Text("assistant"@))
    } else {
        a
    };
    let c = if reasoning.len() > 0 {
        b.insert("reasoning_content"@, Tree::Text(reasoning))
    } else {
        b
    };
    let d = if content.len() > 0 {
        c.insert("content"@, Tree::Text(content))
    } else {
        c
    };
    Tree::Dict(d)
}

/// A choice of a merged frame: the template's, with no finish reason, no log
/// probabilities and its own delta.
pub open spec fn chunk_choice(
    c: Tree,
    reasoning: Seq<char>,
    content: Seq<char>,
    with_role: bool,
) -> Tree {
    c.with("finish_reason"@, Tree::Null).with("logprobs"@, Tree::Null).with(
        "delta"@,
        chunk_delta(reasoning, content, with_role),
    )
}

/// A frame with an empty first choice where it has none.
pub open spec fn with_a_choice(t: Tree) -> Tree {
    let one = Tree::List(seq![Tree::Dict(Map::empty())]);
    match t.get("choices"@) {
        None => t.with("choices"@, one),
        Some(Tree::List(a)) => if a.len() == 0 {
            t.with("choices"@, one)
        } else {
            t
        },
        Some(_) => t,
    }
}

/// The merged frame made after a template: no usage, and the first choice as
/// `chunk_choice` says. A template that has no place for it is kept.
pub open spec fn chunk(
    t: Tree,
    reasoning: Seq<char>,
    content: Seq<char>,
    with_role: bool,
) -> Tree {
    let u = with_a_choice(t.with("usage"@, Tree::Null));
    match first_choice(u) {
        Some(c) => if c is Dict {
            with_first_choice(u, chunk_choice(c, reasoning, content, with_role))
        } else {
            u
        },
        None => u,
    }
}

/// Builds a merged frame after the first frame of the stream. A text that is empty
/// gets no member: some clients open a new block for every member they see.
pub fn make_chunk(template: &Json, reasoning: &str, content: &str, with_role: bool) -> (r: Json)
    ensures
        r.tree() == chunk(template.tree(), reasoning@, content@, with_role),
{
    let mut frame = template.copy();
    frame.set("usage", Json::Null);
    let missing = match frame.get("choices") {
        None => true,
        Some(Json::List(a)) => a.len() == 0,
        Some(_) => false,
    };
    if missing {
        let mut list: Vec<Json> = Vec::new();
        list.push(Json::dict());
        let one = Json::List(list);
        assert(one.tree()->List_0 =~= seq![Tree::Dict(Map::empty())]);
        frame.set("choices", one);
    }
    assert(frame.tree() == with_a_choice(template.tree().with("usage"@, Tree::Null)));
    let choice = match choice_of(&frame) {
        Some(c) => if c.is_dict() {
            let mut d = Json::dict();
            if with_role {
                d.set("role", Json::text("assistant"));
            }
            if !reasoning.is_empty() {
                d.set("reasoning_content", Json::text(reasoning));
            }
            if !content.is_empty() {
                d.set("content", Json::text(content));
            }
            let mut choice = c.copy();
            choice.set("finish_reason", Json::Null);
            choice.set("logprobs", Json::Null);
            choice.set("delta", d);
            Some(choice)
        } else {
            None
        },
        None => None,
    };
    match choice {
        Some(c) => set_first_choice(&mut frame, c),
        None => {},
    }
    frame
}

/// The event that carries a frame to a client.
pub open spec fn sse_text(t: Tree) -> Seq<char> {
    "data: "@ + json_compact(t) + "\n\n"@
}

/// The event that carries a frame to a client.
pub fn sse_bytes(frame: &Json) -> (r: Option<String>)
    ensures
        r is Some,
        r->Some_0@ == sse_text(frame.tree()),
{
    match to_text(frame) {
        Some(text) => {
            let mut out = joined("data: ", text.as_str());
            out.append("\n\n");
            Some(out)
        },
        None => None,
    }
}

/// A frame with the delta of its first choice emptied.
pub open spec fn without_delta(t: Tree) -> Tree {
    match first_choice(t) {
        Some(c) => with_first_choice(t, c.with("delta"@, Tree::Dict(Map::empty()))),
        None => t,
    }
}

/// The last frame as a client is sent it: its delta went out before, unless it
/// calls a tool.
pub open spec fn closing(t: Tree) -> Tree {
    let n = normalized(t);
    if carries_tool(n) {
        n
    } else {
        without_delta(n)
    }
}

/// The last frame as a client is sent it.
pub fn closing_frame(last: &Json) -> (r: Json)
    ensures
        r.tree() == closing(last.tree()),
{
    let mut frame = last.copy();
    normalize_finish(&mut frame);
    if !has_tool_delta(&frame) {
        let choice = match choice_of(&frame) {
            Some(c) => {
                let mut d = c.copy();
                d.set("delta", Json::dict());
                Some(d)
            },
            None => None,
        };
        match choice {
            Some(d) => set_first_choice(&mut frame, d),
            None => {},
        }
    }
    frame
}

} // verus!
