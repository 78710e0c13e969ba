//! What is read of a frame, and which of its members a frame that is sent keeps.

use vstd::prelude::*;

use crate::json::Tree;
use super::frame::{
    carries_tool, chunk, closing, delta, delta_text, finish_text, first_choice, normalized,
    with_a_choice, without_delta,
};
use super::stream_laws::{has_place, lemma_names};

verus! {

/// Of a frame with choices the first counts, and of it the finish reason and the texts of
/// the delta; what is no text counts as the empty one.
pub proof fn first_choice_is_read(f: Tree, cs: Seq<Tree>, k: Seq<char>)
    requires
        f.get("choices"@) == Some(Tree::List(cs)),
        cs.len() > 0,
    ensures
        match cs[0].get("finish_reason"@) {
            Some(Tree::Text(s)) => finish_text(f) == s,
            _ => finish_text(f).len() == 0,
        },
        match cs[0].get("delta"@) {
            Some(d) => delta(f) == Some(d) && match d.get(k) {
                Some(Tree::Text(s)) => delta_text(f, k) == s,
                _ => delta_text(f, k).len() == 0,
            },
            None => delta(f) is None && delta_text(f, k).len() == 0,
        },
{
}

/// A frame without choices tells nothing: it has no finish reason, no text and calls no
/// tool.
pub proof fn frame_without_choices_is_empty(f: Tree, k: Seq<char>)
    requires
        !(f.get("choices"@) matches Some(Tree::List(cs)) && cs.len() > 0),
    ensures
        finish_text(f).len() == 0,
        delta_text(f, k).len() == 0,
        !carries_tool(f),
        normalized(f) == f,
        closing(f) == f,
{
}

/// A frame calls a tool just if the delta of its first choice has tool calls or a
/// function call that is there, not `null` and not empty.
pub proof fn tools_are_called_by_the_delta(f: Tree, cs: Seq<Tree>, d: Tree)
    requires
        f.get("choices"@) == Some(Tree::List(cs)),
        cs.len() > 0,
        cs[0].get("delta"@) == Some(d),
    ensures
        d.get("tool_calls"@) matches Some(Tree::List(a)) && a.len() > 0 ==> carries_tool(f),
        d.get("tool_calls"@) matches Some(t) && t != Tree::Null && !(t is List) ==> carries_tool(f),
        d.get("function_call"@) matches Some(Tree::Dict(m)) && (exists|k: Seq<char>|
            m.dom().contains(k)) ==> carries_tool(f),
        d.get("function_call"@) matches Some(t) && t != Tree::Null && !(t is Dict) ==> carries_tool(
            f,
        ),
        (d.get("tool_calls"@) is None || d.get("tool_calls"@) == Some(Tree::Null) || d.get(
            "tool_calls"@,
        ) == Some(Tree::List(Seq::empty()))) && (d.get("function_call"@) is None || d.get(
            "function_call"@,
        ) == Some(Tree::Null) || d.get("function_call"@) == Some(Tree::Dict(Map::empty())))
            ==> !carries_tool(f),
{
    if let Some(Tree::Dict(m)) = d.get("function_call"@) {
        if exists|k: Seq<char>| m.dom().contains(k) {
            let k = choose|k: Seq<char>| m.dom().contains(k);
            assert(m.dom().contains(k));
            assert(!Map::<Seq<char>, Tree>::empty().dom().contains(k));
        }
    }
}

/// A frame that is passed on is the frame that came, but for an empty finish reason of its
/// first choice, which becomes `null`.
pub proof fn passed_frame_is_kept(f: Tree, cs: Seq<Tree>, i: int, k: Seq<char>)
    requires
        f.get("choices"@) == Some(Tree::List(cs)),
        0 <= i < cs.len(),
    ensures
        k != "choices"@ ==> normalized(f).get(k) == f.get(k),
        normalized(f).get("choices"@) matches Some(Tree::List(n)) && n.len() == cs.len() && (i > 0
            ==> n[i] == cs[i]) && (k != "finish_reason"@ ==> n[0].get(k) == cs[0].get(k))
            && n[0].get("finish_reason"@) == (if cs[0].get("finish_reason"@) matches Some(
            Tree::Text(s),
        ) && s.len() == 0 {
            Some(Tree::Null)
        } else {
            cs[0].get("finish_reason"@)
        }),
{
    if let Some(Tree::Text(s)) = cs[0].get("finish_reason"@) {
        if s.len() == 0 {
            assert(s =~= Seq::<char>::empty());
        }
    }
}

/// The frame that ends a stream is the frame that came, but for the delta of its first
/// choice, which is empty: it keeps its name, its model, its usage and its finish reason.
pub proof fn closing_frame_is_kept(f: Tree, cs: Seq<Tree>, i: int, k: Seq<char>)
    requires
        f.get("choices"@) == Some(Tree::List(cs)),
        0 <= i < cs.len(),
        cs[0] is Dict,
        finish_text(f).len() > 0,
        !carries_tool(f),
    ensures
        k != "choices"@ ==> closing(f).get(k) == f.get(k),
        closing(f).get("choices"@) matches Some(Tree::List(n)) && n.len() == cs.len() && (i > 0
            ==> n[i] == cs[i]) && (k != "delta"@ ==> n[0].get(k) == cs[0].get(k)) && n[0].get(
            "delta"@,
        ) == Some(Tree::Dict(Map::empty())),
{
    lemma_names();
    passed_frame_is_kept(f, cs, i, k);
    assert(normalized(f) == f);
    assert(closing(f) == without_delta(f));
}

/// A merged frame is made after the template: it has the template's members but for the
/// usage, which is `null`, and the first of its choices. That keeps its members too but for
/// the finish reason and the log probabilities, which are `null`, and the delta, which holds
/// the role if asked for, the texts that are not empty, and nothing else.
pub proof fn merged_frame_follows_its_template(
    t: Tree,
    reasoning: Seq<char>,
    content: Seq<char>,
    with_role: bool,
    k: Seq<char>,
)
    requires
        has_place(t),
    ensures
        ({
            let c = chunk(t, reasoning, content, with_role);
            &&& k != "choices"@ && k != "usage"@ ==> c.get(k) == t.get(k)
            &&& c.get("usage"@) == Some(Tree::Null)
            &&& first_choice(c) is Some
            &&& first_choice(c)->0.get("finish_reason"@) == Some(Tree::Null)
            &&& first_choice(c)->0.get("logprobs"@) == Some(Tree::Null)
            &&& k != "finish_reason"@ && k != "logprobs"@ && k != "delta"@ ==> first_choice(
                c,
            )->0.get(k) == match first_choice(t) {
                Some(x) => x.get(k),
                None => None,
            }
            &&& delta(c) is Some
            &&& delta(c)->0.get("role"@) == (if with_role {
                Some(Tree::Text("assistant"@))
            } else {
                None
            })
            &&& delta(c)->0.get("reasoning_content"@) == (if reasoning.len() > 0 {
                Some(Tree::Text(reasoning))
            } else {
                None
            })
            &&& delta(c)->0.get("content"@) == (if content.len() > 0 {
                Some(Tree::Text(content))
            } else {
                None
            })
            &&& k != "role"@ && k != "reasoning_content"@ && k != "content"@ ==> delta(c)->0.get(
                k,
            ) is None
        }),
{
    lemma_names();
    let u = with_a_choice(t.with("usage"@, Tree::Null));
    assert(first_choice(u) is Some && first_choice(u)->0 is Dict);
    assert(first_choice(t) matches Some(x) ==> first_choice(u) == Some(x));
    if first_choice(t) is None {
        assert(first_choice(u) == Some(Tree::Dict(Map::empty())));
    }
}

/// The choices of a merged frame after the first are those of the template.
pub proof fn merged_frame_keeps_the_other_choices(
    t: Tree,
    cs: Seq<Tree>,
    reasoning: Seq<char>,
    content: Seq<char>,
    with_role: bool,
    i: int,
)
    requires
        has_place(t),
        t.get("choices"@) == Some(Tree::List(cs)),
        0 < i < cs.len(),
    ensures
        chunk(t, reasoning, content, with_role).get("choices"@) matches Some(Tree::List(n))
            && n.len() == cs.len() && n[i] == cs[i],
{
    lemma_names();
}

/// A template that has no place for text is kept but for its usage: choices that are no
/// array, or begin with what is no object, stay as they are.
pub proof fn template_without_a_place_is_kept(
    t: Tree,
    reasoning: Seq<char>,
    content: Seq<char>,
    with_role: bool,
    k: Seq<char>,
)
    requires
        !has_place(t),
    ensures
        !(t is Dict) ==> chunk(t, reasoning, content, with_role) == t,
        t is Dict && k != "usage"@ ==> chunk(t, reasoning, content, with_role).get(k) == t.get(k),
        t is Dict ==> chunk(t, reasoning, content, with_role).get("usage"@) == Some(Tree::Null),
{
    lemma_names();
}

} // verus!
