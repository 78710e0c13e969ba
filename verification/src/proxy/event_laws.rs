//! How the text of a stream is cut into events and lines, and what these carry.

use vstd::prelude::*;

use crate::json::{json_compact, json_parse, Tree};
use crate::text::{
    find_from, has_prefix, lemma_find, lemma_until, lines, occurs_at, trim, trim_right, until,
    Class,
};
use crate::text_laws::{
    all_in, both_edges_are_taken, left_edge_is_taken, lines_are_cut_at_their_ends,
};
use super::aggregate::{documents, full_lines, open_line};
use super::frame::sse_text;
use super::pump::{
    ending, event_data, event_frame, event_texts, events, frames, last_events, payload, remainder,
    Gather,
};
use super::usage::line_document;

verus! {

/// Events with the empty line after each, put together.
pub open spec fn put_together(es: Seq<Seq<char>>) -> Seq<char>
    decreases es.len(),
{
    if es.len() == 0 {
        Seq::empty()
    } else {
        es[0] + "\n\n"@ + put_together(es.skip(1))
    }
}

/// Nothing is lost or added when a text is cut: its events with the empty line after each,
/// and then the rest, are the text; neither an event nor the rest holds an empty line.
pub proof fn events_and_rest_are_the_text(s: Seq<char>, i: int)
    ensures
        put_together(events(s)) + remainder(s) == s,
        find_from(remainder(s), "\n\n"@, 0) is None,
        0 <= i < events(s).len() ==> find_from(events(s)[i], "\n\n"@, 0) is None,
    decreases s.len(),
{
    reveal_strlit("\n\n");
    let gap = "\n\n"@;
    assert(gap.len() == 2);
    lemma_find(s, gap, 0);
    match find_from(s, gap, 0) {
        Some(k) => {
            let rest = s.skip(k + 2);
            let first = s.take(k);
            events_and_rest_are_the_text(rest, i - 1);
            let es = events(s);
            assert(es =~= seq![first] + events(rest));
            assert(es.skip(1) =~= events(rest));
            assert(es[0] == first);
            assert(s.subrange(k, k + 2) == gap);
            assert(s =~= first + gap + rest);
            assert(put_together(es) + remainder(s) =~= first + gap + (put_together(events(rest))
                + remainder(rest)));
            if i == 0 {
                lemma_find(first, gap, 0);
                if let Some(m) = find_from(first, gap, 0) {
                    assert(first.subrange(m, m + 2) =~= s.subrange(m, m + 2));
                    assert(occurs_at(s, gap, m));
                }
            } else if 0 < i < es.len() {
                assert(es[i] == events(rest)[i - 1]);
            }
        },
        None => {
            assert(put_together(events(s)) + remainder(s) =~= s);
        },
    }
}

/// The data of an event is what its lines hold after `data:` and white space, put together
/// in order; other lines hold none.
pub proof fn data_of_an_event(
    ls: Seq<Seq<char>>,
    w: Seq<char>,
    x: Seq<char>,
    other: Seq<char>,
)
    requires
        all_in(w, Class::White),
        x.len() > 0 ==> !Class::White.holds(x[0]),
        !has_prefix(other, "data:"@),
    ensures
        event_data(ls.push("data:"@ + (w + x))) == event_data(ls) + x,
        event_data(ls.push(other)) == event_data(ls),
        event_data(Seq::<Seq<char>>::empty()) == Seq::<char>::empty(),
{
    reveal_strlit("data:");
    let l = "data:"@ + (w + x);
    assert("data:"@.len() == 5);
    assert(l.subrange(0, 5) =~= "data:"@);
    assert(l.skip(5) =~= w + x);
    left_edge_is_taken(w, x, Class::White);
    assert(ls.push(l).drop_last() =~= ls);
    assert(ls.push(other).drop_last() =~= ls);
    assert(event_data(ls) + Seq::<char>::empty() =~= event_data(ls));
}

/// An event carries the document that its data stands for, unless that is nothing or closes
/// the stream.
pub proof fn event_carries_its_data(e: Seq<char>)
    ensures
        ({
            let d = event_data(lines(e));
            &&& d.len() == 0 || trim(d) == "[DONE]"@ ==> event_frame(e) is None && payload(
                e,
            ) is None
            &&& d.len() > 0 && trim(d) != "[DONE]"@ ==> event_frame(e) == json_parse(d) && payload(
                e,
            ) == Some(d)
        }),
{
}

/// The frames of events come one by one, in order.
pub proof fn events_carry_frames_one_by_one(a: Seq<Seq<char>>, b: Seq<Seq<char>>, e: Seq<char>)
    ensures
        frames(a + b) == frames(a) + frames(b),
        frames(seq![e]) == match event_frame(e) {
            Some(f) => seq![f],
            None => Seq::empty(),
        },
    decreases b.len(),
{
    assert(seq![e].drop_last() =~= Seq::<Seq<char>>::empty());
    assert(frames(Seq::<Seq<char>>::empty()) =~= Seq::<Tree>::empty());
    if let Some(f) = event_frame(e) {
        assert(Seq::<Tree>::empty().push(f) =~= seq![f]);
    }
    if b.len() == 0 {
        assert(a + b =~= a);
        assert(frames(a) + frames(b) =~= frames(a));
    } else {
        assert((a + b).drop_last() =~= a + b.drop_last());
        events_carry_frames_one_by_one(a, b.drop_last(), e);
        assert(frames(a + b) =~= frames(a) + frames(b));
    }
}

/// What is sent can be read again: the event that carries a frame is one whole event, and the
/// document in it is what the text of the frame stands for. That text must be on one line and
/// not begin with white space.
pub proof fn sent_event_can_be_read(t: Tree)
    requires
        json_compact(t).len() > 0,
        !Class::White.holds(json_compact(t)[0]),
        trim(json_compact(t)) != "[DONE]"@,
        forall|i: int| 0 <= i < json_compact(t).len() ==> json_compact(t)[i] != '\n',
    ensures
        events(sse_text(t)) == seq!["data: "@ + json_compact(t)],
        remainder(sse_text(t)).len() == 0,
        frames(events(sse_text(t))) == match json_parse(json_compact(t)) {
            Some(f) => seq![f],
            None => Seq::empty(),
        },
{
    let j = json_compact(t);
    let e = "data: "@ + j;
    let s = sse_text(t);
    let none = Seq::<char>::empty();
    reveal_strlit("data: ");
    reveal_strlit("data:");
    reveal_strlit("\n\n");
    reveal_strlit(" ");
    assert("data: "@ =~= "data:"@ + seq![' ']);
    assert("\n\n"@.len() == 2);
    assert forall|i: int| 0 <= i < e.len() implies e[i] != '\n' by {
        if i >= 6 {
            assert(e[i] == j[i - 6]);
        }
    }
    let n = e.len() as int;
    assert(s =~= e + "\n\n"@);
    lemma_find(s, "\n\n"@, 0);
    assert(s.subrange(n, n + 2) =~= "\n\n"@);
    assert(occurs_at(s, "\n\n"@, n));
    let k = find_from(s, "\n\n"@, 0)->0;
    assert(s.subrange(k, k + 2)[0] == s[k]);
    assert("\n\n"@[0] == '\n');
    if k < n {
        assert(s[k] == e[k]);
    }
    assert(k == n);
    assert(s.take(n) =~= e);
    assert(s.skip(n + 2) =~= none);
    assert(find_from(none, "\n\n"@, 0) is None);
    assert(events(none) =~= Seq::<Seq<char>>::empty());
    assert(events(s) =~= seq![e]);
    assert(remainder(none) =~= none);
    assert(remainder(s) == remainder(none));
    lines_are_cut_at_their_ends(e, none);
    let ls = Seq::<Seq<char>>::empty();
    assert(e =~= "data:"@ + (seq![' '] + j));
    assert(all_in(seq![' '], Class::White));
    assert(!has_prefix(none, "data:"@));
    data_of_an_event(ls, seq![' '], j, none);
    assert(ls.push(e) =~= seq![e]);
    assert(event_data(ls) + j =~= j);
    events_carry_frames_one_by_one(seq![e], seq![e], e);
}

/// A complete line is what stands before an end of line, without carriage returns at its end;
/// text without an end of line waits.
pub proof fn complete_lines_are_cut(a: Seq<char>, b: Seq<char>)
    requires
        forall|i: int| 0 <= i < a.len() ==> a[i] != '\n',
    ensures
        full_lines(a + seq!['\n'] + b) == seq![trim_right(a, Class::Return)] + full_lines(b),
        open_line(a + seq!['\n'] + b) == open_line(b),
        full_lines(a) == Seq::<Seq<char>>::empty(),
        open_line(a) == a,
{
    let s = a + seq!['\n'] + b;
    lemma_until(s, '\n');
    lemma_until(a, '\n');
    let k = until(s, '\n') as int;
    assert(s[a.len() as int] == '\n');
    if k < a.len() {
        assert(s[k] == a[k]);
    }
    assert(s.take(k) =~= a);
    assert(s.skip(k + 1) =~= b);
}

/// The documents on lines come one by one, in order.
pub proof fn lines_carry_documents_one_by_one(a: Seq<Seq<char>>, b: Seq<Seq<char>>, l: Seq<char>)
    ensures
        documents(a + b) == documents(a) + documents(b),
        documents(seq![l]) == match line_document(l) {
            Some(v) => seq![v],
            None => Seq::empty(),
        },
    decreases b.len(),
{
    assert(seq![l].drop_last() =~= Seq::<Seq<char>>::empty());
    assert(documents(Seq::<Seq<char>>::empty()) =~= Seq::<Tree>::empty());
    if let Some(v) = line_document(l) {
        assert(Seq::<Tree>::empty().push(v) =~= seq![v]);
    }
    if b.len() == 0 {
        assert(a + b =~= a);
        assert(documents(a) + documents(b) =~= documents(a));
    } else {
        assert((a + b).drop_last() =~= a + b.drop_last());
        lines_carry_documents_one_by_one(a, b.drop_last(), l);
        assert(documents(a + b) =~= documents(a) + documents(b));
    }
}

/// Each frame goes out in an event of its own, in order.
pub proof fn frames_go_out_one_by_one(fs: Seq<Tree>, i: int)
    ensures
        event_texts(fs).len() == fs.len(),
        0 <= i < fs.len() ==> event_texts(fs)[i] == sse_text(fs[i]),
{
}

/// A stream ends with the closing event, whatever came before it: after the events of the
/// last frames, and once.
pub proof fn stream_is_closed(g: Gather, i: int)
    ensures
        last_events(g).len() == ending(g).len() + 1,
        last_events(g).last() == "data: [DONE]\n\n"@,
        0 <= i < ending(g).len() ==> last_events(g)[i] == sse_text(ending(g)[i]),
{
}

/// The closing event carries no frame.
pub proof fn closing_event_carries_nothing()
    ensures
        events("data: [DONE]\n\n"@) == seq!["data: [DONE]"@],
        event_frame("data: [DONE]"@) is None,
{
    reveal_strlit("data: [DONE]\n\n");
    reveal_strlit("data: [DONE]");
    reveal_strlit("[DONE]");
    reveal_strlit("data:");
    reveal_strlit("\n\n");
    let s = "data: [DONE]\n\n"@;
    let e = "data: [DONE]"@;
    let none = Seq::<char>::empty();
    assert(s.len() == 14);
    assert(e.len() == 12);
    assert("\n\n"@.len() == 2);
    lemma_find(s, "\n\n"@, 0);
    assert(s.subrange(12, 14) =~= "\n\n"@);
    assert(occurs_at(s, "\n\n"@, 12));
    let k = find_from(s, "\n\n"@, 0)->0;
    assert(s.subrange(k, k + 2)[0] == s[k]);
    assert(k == 12);
    assert(s.take(12) =~= e);
    assert(s.skip(14) =~= none);
    assert(events(none) =~= Seq::<Seq<char>>::empty());
    assert(events(s) =~= seq![e]);
    lines_are_cut_at_their_ends(e, none);
    let ls = Seq::<Seq<char>>::empty();
    assert(e =~= "data:"@ + (seq![' '] + "[DONE]"@));
    assert(!has_prefix(none, "data:"@));
    data_of_an_event(ls, seq![' '], "[DONE]"@, none);
    assert(ls.push(e) =~= seq![e]);
    assert(event_data(ls) + "[DONE]"@ =~= "[DONE]"@);
    both_edges_are_taken(none, "[DONE]"@, none, Class::White);
    assert(none + "[DONE]"@ + none =~= "[DONE]"@);
}

} // verus!
