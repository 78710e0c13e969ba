//! What holds of a regrouped stream as a whole.

use vstd::prelude::*;

use crate::json::Tree;
use crate::text::{find_from, occurs_at};
use super::frame::{
    carries_tool, chunk, chunk_choice, chunk_delta, closing, delta, delta_text, finish_text,
    first_choice, normalized, with_a_choice, with_first_choice,
};
use super::pump::{
    absorbed, absorbed_all, emitted, emitted_all, ending, events, filled, filling, flush, flushed,
    frames, fresh, gain, gained, growth, merged, noting, remainder, started, turn, turned, Field,
    Gather,
};

verus! {

/// A match that ends before more text follows stays the first match.
proof fn lemma_find_append(a: Seq<char>, b: Seq<char>, p: Seq<char>, i: int)
    requires
        0 <= i,
        find_from(a, p, i) is Some,
    ensures
        find_from(a + b, p, i) == find_from(a, p, i),
        i <= find_from(a, p, i)->0,
        find_from(a, p, i)->0 + p.len() <= a.len(),
    decreases a.len() - i + 1,
{
    assert((a + b).subrange(i, i + p.len()) =~= a.subrange(i, i + p.len()));
    if !occurs_at(a, p, i) {
        lemma_find_append(a, b, p, i + 1);
    }
}

/// Cutting a text into events after each piece finds the events of the whole, and
/// leaves the same rest.
pub proof fn events_in_pieces(a: Seq<char>, b: Seq<char>)
    ensures
        events(a + b) == events(a) + events(remainder(a) + b),
        remainder(a + b) == remainder(remainder(a) + b),
    decreases a.len(),
{
    reveal_strlit("\n\n");
    match find_from(a, "\n\n"@, 0) {
        Some(k) => {
            lemma_find_append(a, b, "\n\n"@, 0);
            assert((a + b).take(k) =~= a.take(k));
            assert((a + b).skip(k + 2) =~= a.skip(k + 2) + b);
            events_in_pieces(a.skip(k + 2), b);
            assert(events(a + b) =~= events(a) + events(remainder(a) + b));
        },
        None => {
            assert(events(a) + events(a + b) =~= events(a + b));
        },
    }
}

/// The frames of events one after the other.
proof fn lemma_frames_append(a: Seq<Seq<char>>, b: Seq<Seq<char>>)
    ensures
        frames(a + b) == frames(a) + frames(b),
    decreases b.len(),
{
    if b.len() == 0 {
        assert(a + b =~= a);
        assert(frames(a) + frames(b) =~= frames(a));
    } else {
        assert((a + b).drop_last() =~= a + b.drop_last());
        lemma_frames_append(a, b.drop_last());
        assert((a + b).last() == b.last());
        assert(frames(a + b) =~= frames(a) + frames(b));
    }
}

/// Absorbing frames one after the other.
proof fn lemma_absorb_append(g: Gather, a: Seq<Tree>, b: Seq<Tree>)
    ensures
        absorbed_all(g, a + b) == absorbed_all(absorbed_all(g, a), b),
        emitted_all(g, a + b) == emitted_all(g, a) + emitted_all(absorbed_all(g, a), b),
    decreases b.len(),
{
    if b.len() == 0 {
        assert(a + b =~= a);
        assert(emitted_all(g, a) + emitted_all(absorbed_all(g, a), b) =~= emitted_all(g, a));
    } else {
        assert((a + b).drop_last() =~= a + b.drop_last());
        assert((a + b).last() == b.last());
        lemma_absorb_append(g, a, b.drop_last());
        assert(emitted_all(g, a + b) =~= emitted_all(g, a) + emitted_all(absorbed_all(g, a), b));
    }
}

/// Where the text of a stream is cut does not matter: with `pending` text and the
/// memory `g`, feeding `a` and then `b` leaves the same memory and the same pending
/// text as feeding them at once, and sends the same frames.
pub proof fn feeding_in_pieces(g: Gather, pending: Seq<char>, a: Seq<char>, b: Seq<char>)
    ensures
        ({
            let once = frames(events(pending + (a + b)));
            let first = frames(events(pending + a));
            let middle = absorbed_all(g, first);
            let second = frames(events(remainder(pending + a) + b));
            &&& absorbed_all(g, once) == absorbed_all(middle, second)
            &&& emitted_all(g, once) == emitted_all(g, first) + emitted_all(middle, second)
            &&& remainder(pending + (a + b)) == remainder(remainder(pending + a) + b)
        }),
{
    assert(pending + (a + b) =~= (pending + a) + b);
    events_in_pieces(pending + a, b);
    lemma_frames_append(events(pending + a), events(remainder(pending + a) + b));
    lemma_absorb_append(
        g,
        frames(events(pending + a)),
        frames(events(remainder(pending + a) + b)),
    );
}

/// What a frame tells a client, piece by piece.
pub enum Item {
    /// One character, and whether it is reasoning or content.
    Said((Field, char)),
    /// A frame that calls a tool.
    Tool(Tree),
}

/// The characters of a text of one kind.
pub open spec fn said(field: Field, s: Seq<char>) -> Seq<Item> {
    s.map_values(|c: char| Item::Said((field, c)))
}

/// What one frame tells a client. A frame that calls a tool counts as a whole, its
/// finish reason aside.
pub open spec fn told(f: Tree) -> Seq<Item> {
    if carries_tool(f) {
        seq![Item::Tool(normalized(f))]
    } else {
        said(Field::Reasoning, delta_text(f, "reasoning_content"@)) + said(
            Field::Content,
            delta_text(f, "content"@),
        )
    }
}

/// What frames tell a client.
pub open spec fn told_all(fs: Seq<Tree>) -> Seq<Item>
    decreases fs.len(),
{
    if fs.len() == 0 {
        Seq::empty()
    } else {
        told_all(fs.drop_last()) + told(fs.last())
    }
}

/// Whether a merged frame can be made after `t`: it is an object whose choices,
/// if it has any, are an array that starts with an object.
pub open spec fn has_place(t: Tree) -> bool {
    t is Dict && match t.get("choices"@) {
        None => true,
        Some(Tree::List(a)) => a.len() == 0 || a[0] is Dict,
        Some(_) => false,
    }
}

/// The names of members that frames are made of differ from each other.
pub(crate) proof fn lemma_names()
    ensures
        "choices"@ != "usage"@,
        "finish_reason"@ != "delta"@,
        "logprobs"@ != "delta"@,
        "logprobs"@ != "finish_reason"@,
        "role"@ != "reasoning_content"@,
        "role"@ != "content"@,
        "reasoning_content"@ != "content"@,
        "tool_calls"@ != "role"@,
        "tool_calls"@ != "reasoning_content"@,
        "tool_calls"@ != "content"@,
        "function_call"@ != "role"@,
        "function_call"@ != "reasoning_content"@,
        "function_call"@ != "content"@,
{
    reveal_strlit("choices");
    reveal_strlit("usage");
    reveal_strlit("finish_reason");
    reveal_strlit("delta");
    reveal_strlit("logprobs");
    reveal_strlit("role");
    reveal_strlit("reasoning_content");
    reveal_strlit("content");
    reveal_strlit("tool_calls");
    reveal_strlit("function_call");
    assert("choices"@.len() == 7);
    assert("usage"@.len() == 5);
    assert("finish_reason"@.len() == 13);
    assert("delta"@.len() == 5);
    assert("logprobs"@.len() == 8);
    assert("role"@.len() == 4);
    assert("reasoning_content"@.len() == 17);
    assert("content"@.len() == 7);
    assert("tool_calls"@.len() == 10);
    assert("function_call"@.len() == 13);
}

/// What a merged frame holds: the text of its kind, no finish reason and no usage, a
/// role if it is to have one, and no member for a text that is empty.
pub proof fn merged_frames_hold_one_text(
    t: Tree,
    reasoning: Seq<char>,
    content: Seq<char>,
    with_role: bool,
)
    requires
        has_place(t),
    ensures
        ({
            let c = chunk(t, reasoning, content, with_role);
            &&& delta_text(c, "reasoning_content"@) == reasoning
            &&& delta_text(c, "content"@) == content
            &&& !carries_tool(c)
            &&& finish_text(c) == Seq::<char>::empty()
            &&& first_choice(c)->0.get("finish_reason"@) == Some(Tree::Null)
            &&& c.get("usage"@) == Some(Tree::Null)
            &&& delta(c) == Some(chunk_delta(reasoning, content, with_role))
            &&& chunk_delta(reasoning, content, with_role).get("role"@) is Some <==> with_role
            &&& chunk_delta(reasoning, content, with_role).get("reasoning_content"@) is Some
                <==> reasoning.len() > 0
            &&& chunk_delta(reasoning, content, with_role).get("content"@) is Some
                <==> content.len() > 0
        }),
{
    lemma_names();
    let u = with_a_choice(t.with("usage"@, Tree::Null));
    let c = first_choice(u)->0;
    let d = chunk_delta(reasoning, content, with_role);
    assert(u.get("choices"@) is Some);
    assert(first_choice(u) is Some && c is Dict);
    let k = chunk_choice(c, reasoning, content, with_role);
    assert(first_choice(with_first_choice(u, k)) == Some(k));
    assert(k.get("delta"@) == Some(d));
    assert(k.get("finish_reason"@) == Some(Tree::Null));
    assert(with_first_choice(u, k).get("usage"@) == Some(Tree::Null));
    assert(d.get("tool_calls"@) is None);
    assert(d.get("function_call"@) is None);
    assert(reasoning =~= d.text_or_empty("reasoning_content"@));
    assert(content =~= d.text_or_empty("content"@));
}

/// What frames one after the other tell.
proof fn lemma_told_append(a: Seq<Tree>, b: Seq<Tree>)
    ensures
        told_all(a + b) == told_all(a) + told_all(b),
    decreases b.len(),
{
    if b.len() == 0 {
        assert(a + b =~= a);
        assert(told_all(a) + told_all(b) =~= told_all(a));
    } else {
        assert((a + b).drop_last() =~= a + b.drop_last());
        assert((a + b).last() == b.last());
        lemma_told_append(a, b.drop_last());
        assert(told_all(a + b) =~= told_all(a) + told_all(b));
    }
}

/// What a single frame tells.
proof fn lemma_told_one(f: Tree)
    ensures
        told_all(seq![f]) == told(f),
{
    assert(seq![f].drop_last() =~= Seq::<Tree>::empty());
    assert(told_all(Seq::<Tree>::empty()) =~= Seq::<Item>::empty());
    assert(told_all(seq![f]) =~= told(f));
}

/// Writing `null` for an empty finish reason leaves the delta, and once is enough.
pub(crate) proof fn lemma_normalized(f: Tree)
    ensures
        delta(normalized(f)) == delta(f),
        carries_tool(normalized(f)) == carries_tool(f),
        normalized(normalized(f)) == normalized(f),
        finish_text(normalized(f)) == finish_text(f),
        first_choice(normalized(f)) is Some <==> first_choice(f) is Some,
{
    lemma_names();
    if let Some(c) = first_choice(f) {
        if c.get("finish_reason"@) == Some(Tree::Text(Seq::empty())) {
            let d = c.with("finish_reason"@, Tree::Null);
            assert(first_choice(with_first_choice(f, d)) == Some(d));
            assert(d.get("delta"@) == c.get("delta"@));
            assert(finish_text(normalized(f)) =~= finish_text(f));
        }
    }
}

/// Whether a memory is one that frames with a place for text can lead to.
pub open spec fn sound(g: Gather) -> bool {
    &&& g.acc.len() > 0 ==> !(g.field is Nothing) && g.template is Some
    &&& g.acc.len() < g.field.limit()
    &&& g.template matches Some(t) ==> has_place(t)
    &&& g.last matches Some(f) ==> finish_text(f).len() > 0 && !carries_tool(f)
}

/// Sending the gathered text tells just that text.
proof fn lemma_flush(g: Gather)
    requires
        g.acc.len() > 0 ==> !(g.field is Nothing) && g.template is Some,
        g.template matches Some(t) ==> has_place(t),
    ensures
        told_all(flush(g)) == said(g.field, g.acc),
        flushed(g).acc.len() == 0,
{
    if g.acc.len() > 0 {
        let t = g.template->0;
        let none = Seq::<char>::empty();
        merged_frames_hold_one_text(t, g.acc, none, !g.role_done);
        merged_frames_hold_one_text(t, none, g.acc, !g.role_done);
        lemma_told_one(merged(g, t));
        assert(told(merged(g, t)) =~= said(g.field, g.acc));
    } else {
        assert(said(g.field, g.acc) =~= Seq::<Item>::empty());
        assert(flush(g) =~= Seq::<Tree>::empty());
    }
}

/// One text: what goes out and what is gathered tell what was gathered before and the
/// text.
proof fn lemma_gain(g: Gather, field: Field, piece: Seq<char>)
    requires
        sound(g),
        g.template is Some,
        !(field is Nothing),
    ensures
        sound(gained(g, field, piece)),
        gained(g, field, piece).template == g.template,
        told_all(gain(g, field, piece)) + said(
            gained(g, field, piece).field,
            gained(g, field, piece).acc,
        ) == said(g.field, g.acc) + said(field, piece),
{
    let r = gained(g, field, piece);
    if piece.len() == 0 {
        assert(said(field, piece) =~= Seq::<Item>::empty());
        assert(told_all(gain(g, field, piece)) =~= Seq::<Item>::empty());
        assert(said(r.field, r.acc) =~= said(g.field, g.acc) + said(field, piece));
        assert(told_all(gain(g, field, piece)) + said(r.field, r.acc) =~= said(r.field, r.acc));
    } else {
        let m = turned(g, field);
        let h = Gather { acc: m.acc + piece, ..m };
        lemma_flush(g);
        lemma_flush(h);
        lemma_told_append(turn(g, field), growth(m, piece));
        assert(said(field, m.acc + piece) =~= said(field, m.acc) + said(field, piece));
        assert(told_all(turn(g, field)) + said(field, m.acc) =~= said(g.field, g.acc)) by {
            if g.field != field {
                assert(said(field, m.acc) =~= Seq::<Item>::empty());
            }
        }
        assert(told_all(growth(m, piece)) + said(r.field, r.acc) =~= said(
            field,
            m.acc + piece,
        )) by {
            if h.acc.len() >= h.field.limit() {
                assert(said(r.field, r.acc) =~= Seq::<Item>::empty());
            }
        }
        assert(told_all(gain(g, field, piece)) + said(r.field, r.acc) =~= told_all(turn(g, field))
            + (told_all(growth(m, piece)) + said(r.field, r.acc)));
        assert(told_all(turn(g, field)) + (said(field, m.acc) + said(field, piece)) =~= (told_all(
            turn(g, field),
        ) + said(field, m.acc)) + said(field, piece));
    }
}

/// Both texts of a frame: what goes out and what is gathered tell what was gathered
/// before and both texts.
proof fn lemma_filled(g: Gather, f: Tree)
    requires
        sound(g),
        g.template is Some,
        !carries_tool(f),
    ensures
        sound(filled(g, f)),
        filled(g, f).template == g.template,
        told_all(filling(g, f)) + said(filled(g, f).field, filled(g, f).acc) == said(
            g.field,
            g.acc,
        ) + told(f),
{
    let a = delta_text(f, "reasoning_content"@);
    let b = delta_text(f, "content"@);
    let m = gained(g, Field::Reasoning, a);
    let r = filled(g, f);
    let first = gain(g, Field::Reasoning, a);
    let second = gain(m, Field::Content, b);
    lemma_gain(g, Field::Reasoning, a);
    lemma_gain(m, Field::Content, b);
    lemma_told_append(first, second);
    let x = said(Field::Reasoning, a);
    let y = said(Field::Content, b);
    assert(told_all(first + second) + said(r.field, r.acc) =~= told_all(first) + (told_all(second)
        + said(r.field, r.acc)));
    assert(told_all(first) + (said(m.field, m.acc) + y) =~= (told_all(first) + said(
        m.field,
        m.acc,
    )) + y);
    assert((said(g.field, g.acc) + x) + y =~= said(g.field, g.acc) + told(f));
}

/// One frame: what goes out and what is gathered tell what was gathered before and
/// the frame.
proof fn lemma_step(g: Gather, f: Tree)
    requires
        sound(g),
        g.template is None ==> has_place(f),
    ensures
        sound(absorbed(g, f)),
        absorbed(g, f).template == started(g, f).template,
        told_all(emitted(g, f)) + said(absorbed(g, f).field, absorbed(g, f).acc) == said(
            g.field,
            g.acc,
        ) + told(f),
{
    let s = started(g, f);
    let r = absorbed(g, f);
    if carries_tool(f) {
        lemma_flush(s);
        lemma_normalized(f);
        lemma_told_append(flush(s), seq![normalized(f)]);
        lemma_told_one(normalized(f));
        assert(said(r.field, r.acc) =~= Seq::<Item>::empty());
        assert(told_all(emitted(g, f)) + said(r.field, r.acc) =~= said(g.field, g.acc) + told(f));
    } else {
        let m = filled(s, f);
        lemma_filled(s, f);
        lemma_flush(m);
        lemma_told_append(filling(s, f), noting(m, f));
        assert(told_all(noting(m, f)) + said(r.field, r.acc) =~= said(m.field, m.acc)) by {
            if finish_text(f).len() > 0 {
                assert(said(r.field, r.acc) =~= Seq::<Item>::empty());
            }
        }
        assert(told_all(emitted(g, f)) + said(r.field, r.acc) =~= told_all(filling(s, f)) + (
        told_all(noting(m, f)) + said(r.field, r.acc)));
    }
}

/// All frames so far: what went out and what is gathered tell what the frames told.
#[verifier::rlimit(40)]
proof fn lemma_steps(fs: Seq<Tree>)
    requires
        fs.len() > 0 ==> has_place(fs[0]),
    ensures
        ({
            let g = absorbed_all(fresh(), fs);
            &&& sound(g)
            &&& fs.len() > 0 ==> g.template == Some(fs[0])
            &&& told_all(emitted_all(fresh(), fs)) + said(g.field, g.acc) == told_all(fs)
        }),
    decreases fs.len(),
{
    if fs.len() == 0 {
        assert(said(fresh().field, fresh().acc) =~= Seq::<Item>::empty());
        assert(told_all(emitted_all(fresh(), fs)) + said(fresh().field, fresh().acc) =~= told_all(
            fs,
        ));
    } else {
        let before = fs.drop_last();
        let f = fs.last();
        lemma_steps(before);
        let g = absorbed_all(fresh(), before);
        if before.len() == 0 {
            assert(fs[0] == f);
        } else {
            assert(before[0] == fs[0]);
        }
        lemma_step(g, f);
        let r = absorbed(g, f);
        let sent = emitted_all(fresh(), before);
        lemma_told_append(sent, emitted(g, f));
        assert(told_all(sent + emitted(g, f)) + said(r.field, r.acc) =~= told_all(sent) + (told_all(
            emitted(g, f),
        ) + said(r.field, r.acc)));
        assert(told_all(sent) + (said(g.field, g.acc) + told(f)) =~= (told_all(sent) + said(
            g.field,
            g.acc,
        )) + told(f));
    }
}

/// The last frame as it is sent tells nothing more.
proof fn lemma_closing(f: Tree)
    requires
        finish_text(f).len() > 0,
        !carries_tool(f),
    ensures
        told(closing(f)) == Seq::<Item>::empty(),
        finish_text(closing(f)) == finish_text(f),
        delta(closing(f)) == Some(Tree::Dict(Map::<Seq<char>, Tree>::empty())),
{
    lemma_names();
    lemma_normalized(f);
    let n = normalized(f);
    let c = first_choice(n)->0;
    assert(c is Dict);
    let e = Tree::Dict(Map::<Seq<char>, Tree>::empty());
    let d = c.with("delta"@, e);
    assert(first_choice(with_first_choice(n, d)) == Some(d));
    assert(d.get("delta"@) == Some(e));
    assert(d.get("finish_reason"@) == c.get("finish_reason"@));
    assert(told(closing(f)) =~= Seq::<Item>::empty());
}

/// Nothing is lost, added or reordered: the frames that a client is sent tell what
/// the frames from upstream tell, character by character and tool call by tool
/// call. The first frame must have a place for text, since merged frames are made
/// after it.
pub proof fn stream_tells_the_same(fs: Seq<Tree>)
    requires
        fs.len() > 0 ==> has_place(fs[0]),
    ensures
        told_all(emitted_all(fresh(), fs) + ending(absorbed_all(fresh(), fs))) == told_all(fs),
{
    let g = absorbed_all(fresh(), fs);
    let sent = emitted_all(fresh(), fs);
    lemma_steps(fs);
    lemma_flush(g);
    lemma_told_append(sent, ending(g));
    match g.last {
        Some(f) => {
            lemma_closing(f);
            lemma_told_append(flush(g), seq![closing(f)]);
            lemma_told_one(closing(f));
            assert(told_all(flush(g)) + Seq::<Item>::empty() =~= told_all(flush(g)));
        },
        None => {
            assert(ending(g) =~= flush(g));
        },
    }
}

/// The gathered text always stays shorter than what is sent at once.
pub proof fn gathered_text_stays_short(fs: Seq<Tree>)
    ensures
        absorbed_all(fresh(), fs).acc.len() < absorbed_all(fresh(), fs).field.limit(),
        fs.len() > 0 ==> absorbed_all(fresh(), fs).template == Some(fs[0]),
    decreases fs.len(),
{
    if fs.len() > 0 {
        gathered_text_stays_short(fs.drop_last());
        if fs.len() == 1 {
            assert(fs.drop_last() =~= Seq::<Tree>::empty());
        }
    }
}

/// When the last frame is received, what was gathered goes out: after a frame with a
/// finish reason, or one that calls a tool, nothing is gathered.
pub proof fn last_frame_leaves_nothing_gathered(fs: Seq<Tree>)
    requires
        fs.len() > 0,
        finish_text(fs.last()).len() > 0 || carries_tool(fs.last()),
    ensures
        absorbed_all(fresh(), fs).acc.len() == 0,
        flush(absorbed_all(fresh(), fs)).len() == 0,
{
    gathered_text_stays_short(fs);
}

/// Whether a frame calls a tool or has no role in its delta.
pub open spec fn roleless(f: Tree) -> bool {
    carries_tool(f) || match delta(f) {
        Some(d) => d.get("role"@) is None,
        None => true,
    }
}

/// Whether, of the frames `out` that call no tool, the first alone may have a role.
pub open spec fn role_once(out: Seq<Tree>) -> bool {
    forall|i: int, j: int|
        #![trigger out[i], out[j]]
        0 <= i < j < out.len() && !carries_tool(out[i]) ==> roleless(out[j])
}

/// Whether the memory knows if a merged frame has gone out.
spec fn role_known(g: Gather, out: Seq<Tree>) -> bool {
    &&& role_once(out)
    &&& !g.role_done ==> forall|i: int| 0 <= i < out.len() ==> carries_tool(#[trigger] out[i])
}

/// Sending the gathered text keeps what is known.
proof fn lemma_role_flush(g: Gather, out: Seq<Tree>)
    requires
        role_known(g, out),
        g.template matches Some(t) ==> has_place(t),
    ensures
        role_known(flushed(g), out + flush(g)),
{
    if g.acc.len() > 0 && g.template is Some {
        let t = g.template->0;
        let none = Seq::<char>::empty();
        merged_frames_hold_one_text(t, g.acc, none, !g.role_done);
        merged_frames_hold_one_text(t, none, g.acc, !g.role_done);
        let all = out + flush(g);
        assert(all.len() == out.len() + 1);
        assert forall|i: int, j: int|
            #![trigger all[i], all[j]]
            0 <= i < j < all.len() && !carries_tool(all[i]) implies roleless(all[j]) by {
            assert(all[i] == out[i]);
            if j < out.len() {
                assert(all[j] == out[j]);
            } else {
                assert(all[j] == merged(g, t));
            }
        }
    } else {
        assert(out + flush(g) =~= out);
    }
}

/// Taking a text in keeps what is known.
proof fn lemma_role_gain(g: Gather, field: Field, piece: Seq<char>, out: Seq<Tree>)
    requires
        role_known(g, out),
        g.template matches Some(t) ==> has_place(t),
    ensures
        role_known(gained(g, field, piece), out + gain(g, field, piece)),
        gained(g, field, piece).template == g.template,
{
    if piece.len() == 0 {
        assert(out + gain(g, field, piece) =~= out);
    } else {
        let m = turned(g, field);
        let h = Gather { acc: m.acc + piece, ..m };
        let sent = out + turn(g, field);
        lemma_role_flush(g, out);
        assert(role_known(m, sent)) by {
            if g.field == field {
                assert(sent =~= out);
            }
        }
        lemma_role_flush(h, sent);
        assert(out + gain(g, field, piece) =~= sent + growth(m, piece));
        if h.acc.len() < h.field.limit() {
            assert(sent + growth(m, piece) =~= sent);
        }
    }
}

/// Taking both texts of a frame in keeps what is known.
proof fn lemma_role_filled(g: Gather, f: Tree, out: Seq<Tree>)
    requires
        role_known(g, out),
        g.template matches Some(t) ==> has_place(t),
    ensures
        role_known(filled(g, f), out + filling(g, f)),
        filled(g, f).template == g.template,
{
    let a = delta_text(f, "reasoning_content"@);
    let b = delta_text(f, "content"@);
    let m = gained(g, Field::Reasoning, a);
    let sent = out + gain(g, Field::Reasoning, a);
    lemma_role_gain(g, Field::Reasoning, a, out);
    lemma_role_gain(m, Field::Content, b, sent);
    assert(out + filling(g, f) =~= sent + gain(m, Field::Content, b));
}

/// One frame keeps what is known.
proof fn lemma_role_step(g: Gather, f: Tree, out: Seq<Tree>)
    requires
        role_known(g, out),
        g.template matches Some(t) ==> has_place(t),
        g.template is None ==> has_place(f),
    ensures
        role_known(absorbed(g, f), out + emitted(g, f)),
{
    let s = started(g, f);
    if carries_tool(f) {
        lemma_role_flush(s, out);
        lemma_normalized(f);
        let sent = out + flush(s);
        let all = out + emitted(g, f);
        assert(all =~= sent.push(normalized(f)));
        assert forall|i: int, j: int|
            #![trigger all[i], all[j]]
            0 <= i < j < all.len() && !carries_tool(all[i]) implies roleless(all[j]) by {
            assert(all[i] == sent[i]);
            if j < sent.len() {
                assert(all[j] == sent[j]);
            }
        }
        if !absorbed(g, f).role_done {
            assert forall|i: int| 0 <= i < all.len() implies carries_tool(#[trigger] all[i]) by {
                if i < sent.len() {
                    assert(all[i] == sent[i]);
                }
            }
        }
    } else {
        let r = filled(s, f);
        let all = out + filling(s, f);
        lemma_role_filled(s, f, out);
        lemma_role_flush(r, all);
        assert(out + emitted(g, f) =~= all + noting(r, f));
        assert(role_known(absorbed(g, f), all + noting(r, f))) by {
            if finish_text(f).len() == 0 {
                assert(all + noting(r, f) =~= all);
            }
        }
    }
}

/// All frames so far keep what is known.
proof fn lemma_role_steps(fs: Seq<Tree>)
    requires
        fs.len() > 0 ==> has_place(fs[0]),
    ensures
        role_known(absorbed_all(fresh(), fs), emitted_all(fresh(), fs)),
    decreases fs.len(),
{
    if fs.len() > 0 {
        let before = fs.drop_last();
        if before.len() > 0 {
            assert(before[0] == fs[0]);
        }
        lemma_role_steps(before);
        gathered_text_stays_short(before);
        if before.len() == 0 {
            assert(before =~= Seq::<Tree>::empty());
            assert(fs[0] == fs.last());
        }
        lemma_role_step(absorbed_all(fresh(), before), fs.last(), emitted_all(fresh(), before));
    }
}

/// Of the merged frames that a client is sent the first alone has a role.
pub proof fn role_comes_first(fs: Seq<Tree>)
    requires
        fs.len() > 0 ==> has_place(fs[0]),
    ensures
        role_once(emitted_all(fresh(), fs) + flush(absorbed_all(fresh(), fs))),
{
    lemma_role_steps(fs);
    gathered_text_stays_short(fs);
    if fs.len() == 0 {
        assert(fs =~= Seq::<Tree>::empty());
    }
    lemma_role_flush(absorbed_all(fresh(), fs), emitted_all(fresh(), fs));
}

/// The frame that is sent last, after all merged frames, keeps its finish reason
/// and has an empty delta, since its text went out with the merged frames.
pub proof fn last_frame_closes(fs: Seq<Tree>)
    ensures
        absorbed_all(fresh(), fs).last matches Some(f) ==> finish_text(closing(f)) == finish_text(f)
            && finish_text(f).len() > 0 && delta(closing(f)) == Some(
            Tree::Dict(Map::<Seq<char>, Tree>::empty()),
        ),
{
    lemma_last(fs);
    if let Some(f) = absorbed_all(fresh(), fs).last {
        lemma_closing(f);
    }
}

/// The frame kept for the end has a finish reason and calls no tool.
proof fn lemma_last(fs: Seq<Tree>)
    ensures
        absorbed_all(fresh(), fs).last matches Some(f) ==> finish_text(f).len() > 0
            && !carries_tool(f),
    decreases fs.len(),
{
    if fs.len() > 0 {
        lemma_last(fs.drop_last());
    }
}

/// Whether a frame ends the answer: it has a finish reason and calls no tool.
pub open spec fn finishes(f: Tree) -> bool {
    finish_text(f).len() > 0 && !carries_tool(f)
}

/// Taking a text in keeps the frame that is kept for the end.
proof fn lemma_kept_for_the_end(g: Gather, f: Tree)
    ensures
        absorbed(g, f).last == if finishes(f) {
            Some(f)
        } else {
            g.last
        },
{
    let s = started(g, f);
    assert(s.last == g.last);
    assert(flushed(s).last == g.last);
    assert(filled(s, f).last == g.last);
}

/// The frame kept for the end is the last of the frames that end the answer, whatever else
/// they hold; none is kept only if there is no such frame.
pub proof fn last_finish_is_kept(fs: Seq<Tree>)
    ensures
        match absorbed_all(fresh(), fs).last {
            Some(f) => exists|i: int|
                0 <= i < fs.len() && #[trigger] fs[i] == f && finishes(f) && forall|j: int|
                    i < j < fs.len() ==> !finishes(#[trigger] fs[j]),
            None => forall|i: int| 0 <= i < fs.len() ==> !finishes(#[trigger] fs[i]),
        },
    decreases fs.len(),
{
    if fs.len() > 0 {
        let before = fs.drop_last();
        let n = before.len() as int;
        last_finish_is_kept(before);
        lemma_kept_for_the_end(absorbed_all(fresh(), before), fs.last());
        assert(fs[n] == fs.last());
        if finishes(fs.last()) {
            assert(finishes(fs[n]));
        } else {
            match absorbed_all(fresh(), before).last {
                Some(f) => {
                    let i = choose|i: int|
                        0 <= i < before.len() && #[trigger] before[i] == f && finishes(f) && forall|
                            j: int,
                        |
                            i < j < before.len() ==> !finishes(#[trigger] before[j]);
                    assert(fs[i] == f);
                    assert forall|j: int| i < j < fs.len() implies !finishes(#[trigger] fs[j]) by {
                        if j < n {
                            assert(fs[j] == before[j]);
                        }
                    }
                },
                None => {
                    assert forall|i: int| 0 <= i < fs.len() implies !finishes(#[trigger] fs[i]) by {
                        if i < n {
                            assert(fs[i] == before[i]);
                        }
                    }
                },
            }
        }
    }
}

/// Where some frame ends the answer, the frames that a client is sent end with a frame that
/// has the finish reason of the last such frame and an empty delta, and that has the other
/// members of it.
pub proof fn stream_ends_with_its_last_finish(fs: Seq<Tree>, i: int, k: Seq<char>)
    requires
        0 <= i < fs.len(),
        finishes(fs[i]),
        forall|j: int| i < j < fs.len() ==> !finishes(#[trigger] fs[j]),
    ensures
        ({
            let sent = emitted_all(fresh(), fs) + ending(absorbed_all(fresh(), fs));
            &&& sent.len() > 0
            &&& finish_text(sent.last()) == finish_text(fs[i])
            &&& delta(sent.last()) == Some(Tree::Dict(Map::<Seq<char>, Tree>::empty()))
            &&& k != "choices"@ ==> sent.last().get(k) == fs[i].get(k)
        }),
{
    last_finish_is_kept(fs);
    let g = absorbed_all(fresh(), fs);
    assert(g.last == Some(fs[i])) by {
        match g.last {
            Some(f) => {
                let m = choose|m: int|
                    0 <= m < fs.len() && #[trigger] fs[m] == f && finishes(f) && forall|j: int|
                        m < j < fs.len() ==> !finishes(#[trigger] fs[j]);
                assert(finishes(fs[m]));
                if m < i {
                    assert(!finishes(fs[i]));
                } else if m > i {
                    assert(!finishes(fs[m]));
                }
            },
            None => {
                assert(!finishes(fs[i]));
            },
        }
    }
    lemma_closing(fs[i]);
    let sent = emitted_all(fresh(), fs) + ending(g);
    assert(ending(g).last() == closing(fs[i]));
    assert(sent.last() == closing(fs[i]));
}

/// Whether `x` is a merged frame made after `t`: it tells a text of one kind, calls no tool
/// and ends nothing, and has the members of `t` but for the choices and the usage.
pub open spec fn made_after(x: Tree, t: Tree) -> bool {
    &&& !carries_tool(x)
    &&& finish_text(x).len() == 0
    &&& delta_text(x, "reasoning_content"@).len() == 0 <==> delta_text(x, "content"@).len() > 0
    &&& x.get("usage"@) == Some(Tree::Null)
    &&& forall|k: Seq<char>|
        k != "choices"@ && k != "usage"@ ==> #[trigger] x.get(k) == t.get(k)
}

/// Whether each of the frames `out` is a merged frame made after the first of the frames
/// `fs`, or one of these that calls a tool, passed on.
pub open spec fn merged_or_tools(out: Seq<Tree>, fs: Seq<Tree>) -> bool {
    forall|j: int|
        0 <= j < out.len() ==> (fs.len() > 0 && made_after(#[trigger] out[j], fs[0])) || exists|
            i: int,
        |
            0 <= i < fs.len() && carries_tool(fs[i]) && out[j] == normalized(#[trigger] fs[i])
}

/// What is sent of gathered text is a merged frame made after the template.
proof fn lemma_flush_made(g: Gather)
    requires
        sound(g) || g.acc.len() > 0,
        g.acc.len() > 0 ==> !(g.field is Nothing),
        g.template matches Some(t) ==> has_place(t),
    ensures
        forall|j: int|
            0 <= j < flush(g).len() ==> g.template is Some && made_after(
                #[trigger] flush(g)[j],
                g.template->0,
            ),
{
    if let Some(t) = g.template {
        if g.acc.len() > 0 {
            let none = Seq::<char>::empty();
            merged_frames_hold_one_text(t, g.acc, none, !g.role_done);
            merged_frames_hold_one_text(t, none, g.acc, !g.role_done);
            lemma_names();
            assert(made_after(merged(g, t), t));
        }
    }
}

/// What is sent of one text are merged frames made after the template.
proof fn lemma_gain_made(g: Gather, field: Field, piece: Seq<char>)
    requires
        sound(g),
        g.template is Some,
        !(field is Nothing),
    ensures
        forall|j: int|
            0 <= j < gain(g, field, piece).len() ==> made_after(
                #[trigger] gain(g, field, piece)[j],
                g.template->0,
            ),
{
    if piece.len() > 0 {
        let m = turned(g, field);
        let h = Gather { acc: m.acc + piece, ..m };
        lemma_flush_made(g);
        lemma_flush_made(h);
        let a = turn(g, field);
        let b = growth(m, piece);
        assert forall|j: int| 0 <= j < (a + b).len() implies made_after(
            #[trigger] (a + b)[j],
            g.template->0,
        ) by {
            if j < a.len() {
                assert(a[j] == flush(g)[j]);
            } else {
                assert((a + b)[j] == flush(h)[j - a.len()]);
            }
        }
    }
}

/// One frame: what goes out for it are merged frames made after the template, or the frame
/// itself if it calls a tool.
proof fn lemma_emitted_made(g: Gather, f: Tree)
    requires
        sound(g),
        g.template is None ==> has_place(f),
    ensures
        forall|j: int|
            0 <= j < emitted(g, f).len() ==> made_after(
                #[trigger] emitted(g, f)[j],
                started(g, f).template->0,
            ) || (carries_tool(f) && emitted(g, f)[j] == normalized(f)),
{
    let s = started(g, f);
    let t = s.template->0;
    let out = emitted(g, f);
    lemma_flush_made(s);
    if !carries_tool(f) {
        let a = delta_text(f, "reasoning_content"@);
        let b = delta_text(f, "content"@);
        let m = gained(s, Field::Reasoning, a);
        let r = filled(s, f);
        lemma_gain(s, Field::Reasoning, a);
        lemma_gain_made(s, Field::Reasoning, a);
        lemma_gain_made(m, Field::Content, b);
        lemma_filled(s, f);
        lemma_flush_made(r);
        let x = gain(s, Field::Reasoning, a);
        let y = gain(m, Field::Content, b);
        assert forall|j: int| 0 <= j < out.len() implies made_after(#[trigger] out[j], t) by {
            if j < x.len() {
                assert(out[j] == x[j]);
            } else if j < x.len() + y.len() {
                assert(out[j] == y[j - x.len()]);
            } else {
                assert(out[j] == flush(r)[j - x.len() - y.len()]);
            }
        }
    } else {
        assert forall|j: int| 0 <= j < out.len() implies made_after(#[trigger] out[j], t)
            || out[j] == normalized(f) by {
            if j < flush(s).len() {
                assert(out[j] == flush(s)[j]);
            }
        }
    }
}

/// Every frame that a client is sent before the last is a merged frame that has the name,
/// the model and the other members of the first frame, or a frame that calls a tool, passed
/// on. So the finish reason is told once, by the last frame, but for frames that call a tool.
pub proof fn sent_frames_are_merged_or_tools(fs: Seq<Tree>)
    requires
        fs.len() > 0 ==> has_place(fs[0]),
    ensures
        merged_or_tools(
            emitted_all(fresh(), fs) + flush(absorbed_all(fresh(), fs)),
            fs,
        ),
        ending(absorbed_all(fresh(), fs)).len() <= flush(absorbed_all(fresh(), fs)).len() + 1,
{
    lemma_emitted_all_made(fs);
    lemma_steps(fs);
    let g = absorbed_all(fresh(), fs);
    lemma_flush_made(g);
    let a = emitted_all(fresh(), fs);
    let out = a + flush(g);
    assert forall|j: int| 0 <= j < out.len() implies (fs.len() > 0 && made_after(
        #[trigger] out[j],
        fs[0],
    )) || exists|i: int|
        0 <= i < fs.len() && carries_tool(fs[i]) && out[j] == normalized(#[trigger] fs[i]) by {
        if j < a.len() {
            assert(out[j] == a[j]);
        } else {
            assert(out[j] == flush(g)[j - a.len()]);
            if fs.len() == 0 {
                assert(g.template is None);
            }
        }
    }
}

/// The frames that go out so far.
proof fn lemma_emitted_all_made(fs: Seq<Tree>)
    requires
        fs.len() > 0 ==> has_place(fs[0]),
    ensures
        merged_or_tools(emitted_all(fresh(), fs), fs),
    decreases fs.len(),
{
    if fs.len() > 0 {
        let before = fs.drop_last();
        let f = fs.last();
        let n = before.len() as int;
        if n > 0 {
            assert(before[0] == fs[0]);
        } else {
            assert(before =~= Seq::<Tree>::empty());
            assert(fs[0] == f);
        }
        lemma_emitted_all_made(before);
        lemma_steps(before);
        let g = absorbed_all(fresh(), before);
        lemma_emitted_made(g, f);
        let a = emitted_all(fresh(), before);
        let b = emitted(g, f);
        let out = emitted_all(fresh(), fs);
        assert(out == a + b);
        assert(started(g, f).template == Some(fs[0]));
        assert(fs[n] == f);
        assert forall|j: int| 0 <= j < out.len() implies made_after(#[trigger] out[j], fs[0])
            || exists|i: int|
            0 <= i < fs.len() && carries_tool(fs[i]) && out[j] == normalized(#[trigger] fs[i]) by {
            if j < a.len() {
                assert(out[j] == a[j]);
                if !made_after(out[j], fs[0]) {
                    let i = choose|i: int|
                        0 <= i < before.len() && carries_tool(before[i]) && a[j] == normalized(
                            #[trigger] before[i],
                        );
                    assert(fs[i] == before[i]);
                }
            } else {
                assert(out[j] == b[j - a.len()]);
            }
        }
    }
}

/// Text waits until there is enough of it: a frame with a text of the kind that is gathered
/// sends nothing as long as there are fewer than 256 characters of reasoning, or 32 of
/// content, and with as many it sends them all, in one frame.
pub proof fn text_waits_until_there_is_enough(g: Gather, f: Tree, field: Field)
    requires
        sound(g),
        g.template is Some,
        !carries_tool(f),
        finish_text(f).len() == 0,
        !(field is Nothing),
        g.field == field || g.acc.len() == 0,
        field is Reasoning ==> delta_text(f, "content"@).len() == 0,
        field is Content ==> delta_text(f, "reasoning_content"@).len() == 0,
    ensures
        ({
            let piece = if field is Reasoning {
                delta_text(f, "reasoning_content"@)
            } else {
                delta_text(f, "content"@)
            };
            let enough: int = if field is Reasoning {
                256
            } else {
                32
            };
            let all = g.acc + piece;
            &&& piece.len() == 0 ==> emitted(g, f).len() == 0 && absorbed(g, f) == g
            &&& piece.len() > 0 && all.len() < enough ==> emitted(g, f).len() == 0 && absorbed(
                g,
                f,
            ).acc == all && absorbed(g, f).field == field
            &&& piece.len() > 0 && all.len() >= enough ==> emitted(g, f).len() == 1 && absorbed(
                g,
                f,
            ).acc.len() == 0 && told_all(emitted(g, f)) == said(field, all)
        }),
{
    lemma_step(g, f);
    let r = delta_text(f, "reasoning_content"@);
    let c = delta_text(f, "content"@);
    let piece = if field is Reasoning {
        r
    } else {
        c
    };
    let all = g.acc + piece;
    let none = Seq::<Item>::empty();
    assert(said(Field::Reasoning, Seq::empty()) =~= none);
    assert(said(Field::Content, Seq::empty()) =~= none);
    if r.len() == 0 {
        assert(r =~= Seq::<char>::empty());
    }
    if c.len() == 0 {
        assert(c =~= Seq::<char>::empty());
    }
    assert(told(f) =~= said(field, piece));
    if g.acc.len() == 0 {
        assert(g.acc =~= Seq::<char>::empty());
        assert(said(g.field, g.acc) =~= none);
        assert(all =~= piece);
    }
    assert(said(field, g.acc) + said(field, piece) =~= said(field, all));
    assert(none + said(field, piece) =~= said(field, piece));
    if absorbed(g, f).acc.len() == 0 {
        assert(said(absorbed(g, f).field, absorbed(g, f).acc) =~= none);
        assert(told_all(emitted(g, f)) + none =~= told_all(emitted(g, f)));
    }
}

/// A change of kind sends what was gathered: a frame with a text of the other kind sends the
/// gathered text whole, before anything else, and what follows is of the other kind alone.
pub proof fn change_of_kind_sends_what_was_gathered(g: Gather, f: Tree, field: Field)
    requires
        sound(g),
        g.template is Some,
        g.acc.len() > 0,
        !carries_tool(f),
        !(field is Nothing),
        g.field != field,
        field is Reasoning ==> delta_text(f, "reasoning_content"@).len() > 0 && delta_text(
            f,
            "content"@,
        ).len() == 0,
        field is Content ==> delta_text(f, "reasoning_content"@).len() == 0 && delta_text(
            f,
            "content"@,
        ).len() > 0,
    ensures
        emitted(g, f).len() > 0,
        told(emitted(g, f)[0]) == said(g.field, g.acc),
        absorbed(g, f).field == field,
{
    let r = delta_text(f, "reasoning_content"@);
    let c = delta_text(f, "content"@);
    lemma_flush(g);
    lemma_told_one(flush(g)[0]);
    assert(flush(g) =~= seq![flush(g)[0]]);
    if field is Reasoning {
        assert(gain(g, field, r)[0] == flush(g)[0]);
    } else {
        assert(gain(g, field, c)[0] == flush(g)[0]);
        assert(gained(g, Field::Reasoning, r) == g);
        assert(filling(g, f)[0] == flush(g)[0]);
    }
    assert(emitted(g, f)[0] == flush(g)[0]);
}

} // verus!
