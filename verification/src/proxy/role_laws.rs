//! Who speaks in a regrouped stream: the first merged frame says so.

use vstd::prelude::*;

use crate::json::Tree;
use super::frame::{carries_tool, delta, delta_text, finish_text, normalized};
use super::pump::{
    absorbed, absorbed_all, emitted, emitted_all, filled, filling, flush, flushed, fresh, gain,
    gained, growth, merged, noting, started, turn, turned, Field, Gather,
};
use super::stream_laws::{
    gathered_text_stays_short, has_place, lemma_names, lemma_normalized,
    merged_frames_hold_one_text,
};

verus! {

/// Whether a frame calls no tool and has the role of the assistant in its delta.
pub open spec fn introduces(f: Tree) -> bool {
    !carries_tool(f) && match delta(f) {
        Some(d) => d.get("role"@) == Some(Tree::Text("assistant"@)),
        None => false,
    }
}

/// Whether the frames before position `p` of `out` call tools, and the one at `p`, if there
/// is one, introduces the assistant.
pub open spec fn introduced_at(out: Seq<Tree>, p: int) -> bool {
    &&& 0 <= p <= out.len()
    &&& forall|j: int| 0 <= j < p ==> carries_tool(#[trigger] out[j])
    &&& p < out.len() ==> introduces(out[p])
}

/// Whether the memory knows if the assistant was introduced.
spec fn known(g: Gather, out: Seq<Tree>, p: int) -> bool {
    introduced_at(out, p) && (g.role_done <==> p < out.len())
}

/// Sending the gathered text keeps what is known.
proof fn lemma_known_flush(g: Gather, out: Seq<Tree>, p: int)
    requires
        known(g, out, p),
        g.template matches Some(t) ==> has_place(t),
    ensures
        known(flushed(g), out + flush(g), p),
{
    if g.acc.len() > 0 && g.template is Some {
        let t = g.template->0;
        let none = Seq::<char>::empty();
        merged_frames_hold_one_text(t, g.acc, none, !g.role_done);
        merged_frames_hold_one_text(t, none, g.acc, !g.role_done);
        lemma_names();
        let all = out + flush(g);
        assert(all.len() == out.len() + 1);
        assert(all[out.len() as int] == merged(g, t));
        assert forall|j: int| 0 <= j < p implies carries_tool(#[trigger] all[j]) by {
            assert(all[j] == out[j]);
        }
        if p < out.len() {
            assert(all[p] == out[p]);
        } else {
            assert(introduces(merged(g, t)));
        }
    } else {
        assert(out + flush(g) =~= out);
    }
}

/// Taking a text in keeps what is known.
proof fn lemma_known_gain(g: Gather, field: Field, piece: Seq<char>, out: Seq<Tree>, p: int)
    requires
        known(g, out, p),
        g.template matches Some(t) ==> has_place(t),
    ensures
        known(gained(g, field, piece), out + gain(g, field, piece), p),
        gained(g, field, piece).template == g.template,
{
    if piece.len() == 0 {
        assert(out + gain(g, field, piece) =~= out);
    } else {
        let m = turned(g, field);
        let h = Gather { acc: m.acc + piece, ..m };
        let sent = out + turn(g, field);
        lemma_known_flush(g, out, p);
        assert(known(m, sent, p)) by {
            if g.field == field {
                assert(sent =~= out);
            }
        }
        lemma_known_flush(h, sent, p);
        assert(out + gain(g, field, piece) =~= sent + growth(m, piece));
        if h.acc.len() < h.field.limit() {
            assert(sent + growth(m, piece) =~= sent);
        }
    }
}

/// Both texts of a frame keep what is known.
proof fn lemma_known_filled(g: Gather, f: Tree, out: Seq<Tree>, p: int)
    requires
        known(g, out, p),
        g.template matches Some(t) ==> has_place(t),
    ensures
        known(filled(g, f), out + filling(g, f), p),
        filled(g, f).template == g.template,
{
    let a = delta_text(f, "reasoning_content"@);
    let b = delta_text(f, "content"@);
    let m = gained(g, Field::Reasoning, a);
    let sent = out + gain(g, Field::Reasoning, a);
    lemma_known_gain(g, Field::Reasoning, a, out, p);
    lemma_known_gain(m, Field::Content, b, sent, p);
    assert(out + filling(g, f) =~= sent + gain(m, Field::Content, b));
}

/// One frame keeps what is known; a frame that calls a tool may move the position on.
proof fn lemma_known_step(g: Gather, f: Tree, out: Seq<Tree>, p: int) -> (q: int)
    requires
        known(g, out, p),
        g.template matches Some(t) ==> has_place(t),
        g.template is None ==> has_place(f),
    ensures
        known(absorbed(g, f), out + emitted(g, f), q),
{
    let s = started(g, f);
    if carries_tool(f) {
        lemma_known_flush(s, out, p);
        lemma_normalized(f);
        let sent = out + flush(s);
        let all = out + emitted(g, f);
        assert(all =~= sent.push(normalized(f)));
        let q = if p < sent.len() {
            p
        } else {
            p + 1
        };
        assert forall|j: int| 0 <= j < q implies carries_tool(#[trigger] all[j]) by {
            if j < sent.len() {
                assert(all[j] == sent[j]);
            }
        }
        if p < sent.len() {
            assert(all[p] == sent[p]);
        }
        q
    } else {
        let r = filled(s, f);
        let all = out + filling(s, f);
        lemma_known_filled(s, f, out, p);
        lemma_known_flush(r, all, p);
        assert(out + emitted(g, f) =~= all + noting(r, f));
        if finish_text(f).len() == 0 {
            assert(all + noting(r, f) =~= all);
        }
        p
    }
}

/// All frames so far keep what is known.
proof fn lemma_known_steps(fs: Seq<Tree>) -> (p: int)
    requires
        fs.len() > 0 ==> has_place(fs[0]),
    ensures
        known(absorbed_all(fresh(), fs), emitted_all(fresh(), fs), p),
    decreases fs.len(),
{
    if fs.len() > 0 {
        let before = fs.drop_last();
        if before.len() > 0 {
            assert(before[0] == fs[0]);
        } else {
            assert(before =~= Seq::<Tree>::empty());
            assert(fs[0] == fs.last());
        }
        let p = lemma_known_steps(before);
        gathered_text_stays_short(before);
        lemma_known_step(
            absorbed_all(fresh(), before),
            fs.last(),
            emitted_all(fresh(), before),
            p,
        )
    } else {
        0
    }
}

/// The first merged frame that a client is sent has the role of the assistant: only frames
/// that call tools come before it.
pub proof fn assistant_is_introduced(fs: Seq<Tree>)
    requires
        fs.len() > 0 ==> has_place(fs[0]),
    ensures
        exists|p: int|
            introduced_at(emitted_all(fresh(), fs) + flush(absorbed_all(fresh(), fs)), p),
{
    let p = lemma_known_steps(fs);
    gathered_text_stays_short(fs);
    if fs.len() == 0 {
        assert(fs =~= Seq::<Tree>::empty());
    }
    lemma_known_flush(absorbed_all(fresh(), fs), emitted_all(fresh(), fs), p);
}

} // verus!
