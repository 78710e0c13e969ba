//! Regrouping of a streamed chat completion.
//!
//! Upstream cuts reasoning and content into frames of a word or two, and some
//! clients draw one block for each. A [`Pump`] gathers the text of one kind until
//! there is enough of it, and passes every frame that calls a tool on as it is.

use vstd::prelude::*;

use crate::json::{json_parse, kept, parse, Json, Tree};
use crate::text::{
    begins_with, chars_between, chars_of, decode_lossy, find_from, has_prefix, left_trimmed, lines,
    lines_of, position_from, same_chars, string_of, texts, trim, trim_left, trimmed_chars,
    utf8_lossy, views, Class,
};
use super::frame::{
    carries_tool, chunk, closing, closing_frame, delta_str, delta_text, finish_str, finish_text,
    has_tool_delta, make_chunk, normalize_finish, normalized, sse_bytes, sse_text,
};
use super::usage::{last_usage, usage_from_sse};

verus! {

/// How many characters of reasoning are gathered before they are sent.
pub const MERGE_MIN_REASONING: usize = 256;

/// How many characters of content are gathered before they are sent.
pub const MERGE_MIN_CONTENT: usize = 32;

/// The kind of the text that is being gathered.
#[derive(Clone, Copy, PartialEq, Eq, Structural, Debug)]
pub enum Field {
    Nothing,
    Reasoning,
    Content,
}

impl Field {
    /// How many characters of this kind are gathered before they are sent.
    pub open spec fn limit(self) -> nat {
        match self {
            Field::Reasoning => MERGE_MIN_REASONING as nat,
            _ => MERGE_MIN_CONTENT as nat,
        }
    }
}

/// What a [`Pump`] remembers between two frames.
#[verifier::ext_equal]
pub struct Gather {
    /// The first frame of the stream.
    pub template: Option<Tree>,
    /// The latest frame with a finish reason that called no tool.
    pub last: Option<Tree>,
    /// Whether a merged frame has been sent.
    pub role_done: bool,
    /// The kind of the gathered text.
    pub field: Field,
    /// The gathered text.
    pub acc: Seq<char>,
}

/// The memory of a fresh [`Pump`].
pub open spec fn fresh() -> Gather {
    Gather {
        template: None,
        last: None,
        role_done: false,
        field: Field::Nothing,
        acc: Seq::empty(),
    }
}

/// The merged frame for the gathered text.
pub open spec fn merged(g: Gather, t: Tree) -> Tree {
    if g.field is Reasoning {
        chunk(t, g.acc, Seq::empty(), !g.role_done)
    } else {
        chunk(t, Seq::empty(), g.acc, !g.role_done)
    }
}

/// The memory after the gathered text has been sent.
pub open spec fn flushed(g: Gather) -> Gather {
    if g.acc.len() > 0 && g.template is Some {
        Gather { role_done: true, acc: Seq::empty(), ..g }
    } else {
        g
    }
}

/// The frames with which the gathered text is sent.
pub open spec fn flush(g: Gather) -> Seq<Tree> {
    match g.template {
        Some(t) => if g.acc.len() > 0 {
            seq![merged(g, t)]
        } else {
            Seq::empty()
        },
        None => Seq::empty(),
    }
}

/// The memory with a template.
pub open spec fn started(g: Gather, f: Tree) -> Gather {
    if g.template is None {
        Gather { template: Some(f), ..g }
    } else {
        g
    }
}

/// The memory turned to text of another kind; what was gathered goes out first.
pub open spec fn turned(g: Gather, field: Field) -> Gather {
    if g.field != field {
        Gather { field, ..flushed(g) }
    } else {
        g
    }
}

/// The frames that go out when the memory turns to text of another kind.
pub open spec fn turn(g: Gather, field: Field) -> Seq<Tree> {
    if g.field != field {
        flush(g)
    } else {
        Seq::empty()
    }
}

/// The memory with more text of the kind it gathers.
pub open spec fn grown(g: Gather, piece: Seq<char>) -> Gather {
    let h = Gather { acc: g.acc + piece, ..g };
    if h.acc.len() >= h.field.limit() {
        flushed(h)
    } else {
        h
    }
}

/// The frames that go out when text is added.
pub open spec fn growth(g: Gather, piece: Seq<char>) -> Seq<Tree> {
    let h = Gather { acc: g.acc + piece, ..g };
    if h.acc.len() >= h.field.limit() {
        flush(h)
    } else {
        Seq::empty()
    }
}

/// The memory with a text of the kind `field` taken in. An empty text changes nothing.
pub open spec fn gained(g: Gather, field: Field, piece: Seq<char>) -> Gather {
    if piece.len() > 0 {
        grown(turned(g, field), piece)
    } else {
        g
    }
}

/// The frames that go out when a text of the kind `field` is taken in.
pub open spec fn gain(g: Gather, field: Field, piece: Seq<char>) -> Seq<Tree> {
    if piece.len() > 0 {
        turn(g, field) + growth(turned(g, field), piece)
    } else {
        Seq::empty()
    }
}

/// The memory with both texts of a frame taken in: its reasoning, then its content.
pub open spec fn filled(g: Gather, f: Tree) -> Gather {
    gained(
        gained(g, Field::Reasoning, delta_text(f, "reasoning_content"@)),
        Field::Content,
        delta_text(f, "content"@),
    )
}

/// The frames that go out when both texts of a frame are taken in.
pub open spec fn filling(g: Gather, f: Tree) -> Seq<Tree> {
    let r = delta_text(f, "reasoning_content"@);
    gain(g, Field::Reasoning, r) + gain(
        gained(g, Field::Reasoning, r),
        Field::Content,
        delta_text(f, "content"@),
    )
}

/// The memory after a frame with a finish reason has been noted: the frame is kept
/// for the end, and what was gathered has gone out.
pub open spec fn noted(g: Gather, f: Tree) -> Gather {
    if finish_text(f).len() > 0 {
        Gather { last: Some(f), ..flushed(g) }
    } else {
        g
    }
}

/// The frames that go out when a frame is noted.
pub open spec fn noting(g: Gather, f: Tree) -> Seq<Tree> {
    if finish_text(f).len() > 0 {
        flush(g)
    } else {
        Seq::empty()
    }
}

/// The memory after one more frame from upstream.
pub open spec fn absorbed(g: Gather, f: Tree) -> Gather {
    let s = started(g, f);
    if carries_tool(f) {
        Gather { field: Field::Nothing, ..flushed(s) }
    } else {
        noted(filled(s, f), f)
    }
}

/// The frames that go out for one more frame from upstream.
pub open spec fn emitted(g: Gather, f: Tree) -> Seq<Tree> {
    let s = started(g, f);
    if carries_tool(f) {
        flush(s) + seq![normalized(f)]
    } else {
        filling(s, f) + noting(filled(s, f), f)
    }
}

/// The memory after the frames `fs`.
pub open spec fn absorbed_all(g: Gather, fs: Seq<Tree>) -> Gather
    decreases fs.len(),
{
    if fs.len() == 0 {
        g
    } else {
        absorbed(absorbed_all(g, fs.drop_last()), fs.last())
    }
}

/// The frames that go out for the frames `fs`.
pub open spec fn emitted_all(g: Gather, fs: Seq<Tree>) -> Seq<Tree>
    decreases fs.len(),
{
    if fs.len() == 0 {
        Seq::empty()
    } else {
        emitted_all(g, fs.drop_last()) + emitted(absorbed_all(g, fs.drop_last()), fs.last())
    }
}

/// The frames that go out when the stream ends.
pub open spec fn ending(g: Gather) -> Seq<Tree> {
    flush(g) + match g.last {
        Some(f) => seq![closing(f)],
        None => Seq::empty(),
    }
}

/// The events that carry frames.
pub open spec fn event_texts(fs: Seq<Tree>) -> Seq<Seq<char>> {
    fs.map_values(|f: Tree| sse_text(f))
}

/// The events that go out when the stream ends: those that carry frames, and the closing
/// event.
pub open spec fn last_events(g: Gather) -> Seq<Seq<char>> {
    event_texts(ending(g)).push("data: [DONE]\n\n"@)
}

/// The complete events of a text, each ended by an empty line.
pub open spec fn events(s: Seq<char>) -> Seq<Seq<char>>
    decreases s.len(),
{
    match find_from(s, "\n\n"@, 0) {
        Some(k) => if 0 <= k && k + 2 <= s.len() {
            seq![s.take(k)] + events(s.skip(k + 2))
        } else {
            Seq::empty()
        },
        None => Seq::empty(),
    }
}

/// What follows the complete events of a text.
pub open spec fn remainder(s: Seq<char>) -> Seq<char>
    decreases s.len(),
{
    match find_from(s, "\n\n"@, 0) {
        Some(k) => if 0 <= k && k + 2 <= s.len() {
            remainder(s.skip(k + 2))
        } else {
            s
        },
        None => s,
    }
}

/// The data of an event: what its `data:` lines hold, put together.
pub open spec fn event_data(ls: Seq<Seq<char>>) -> Seq<char>
    decreases ls.len(),
{
    if ls.len() == 0 {
        Seq::empty()
    } else {
        let l = ls.last();
        event_data(ls.drop_last()) + if has_prefix(l, "data:"@) {
            trim_left(l.skip(5), Class::White)
        } else {
            Seq::empty()
        }
    }
}

/// The frame that an event carries. Events without data, the closing event and
/// events whose data is no JSON carry none.
pub open spec fn event_frame(e: Seq<char>) -> Option<Tree> {
    let d = event_data(lines(e));
    if d.len() == 0 || trim(d) == "[DONE]"@ {
        None
    } else {
        json_parse(d)
    }
}

/// The frames that events carry.
pub open spec fn frames(es: Seq<Seq<char>>) -> Seq<Tree>
    decreases es.len(),
{
    if es.len() == 0 {
        Seq::empty()
    } else {
        match event_frame(es.last()) {
            Some(f) => frames(es.drop_last()).push(f),
            None => frames(es.drop_last()),
        }
    }
}

/// Searching what follows position `i` is searching from `i` on.
proof fn lemma_find_shift(s: Seq<char>, p: Seq<char>, i: int, j: int)
    requires
        0 <= i <= s.len(),
        0 <= j,
    ensures
        match find_from(s, p, i + j) {
            Some(k) => find_from(s.skip(i), p, j) == Some(k - i),
            None => find_from(s.skip(i), p, j) is None,
        },
    decreases s.len() - i - j + 1,
{
    if i + j + p.len() <= s.len() {
        assert(s.skip(i).subrange(j, j + p.len()) == s.subrange(i + j, i + j + p.len()));
        lemma_find_shift(s, p, i, j + 1);
    }
}

/// The data of an event, unless it has none or is the closing event.
pub open spec fn payload(e: Seq<char>) -> Option<Seq<char>> {
    let d = event_data(lines(e));
    if d.len() == 0 || trim(d) == "[DONE]"@ {
        None
    } else {
        Some(d)
    }
}

/// The data of an event, unless it has none or is the closing event. An event may
/// have several `data:` lines; only together do they hold the whole.
pub fn event_payload(event: &Vec<char>) -> (r: Option<String>)
    ensures
        match r {
            Some(d) => payload(event@) == Some(d@),
            None => payload(event@) is None,
        },
{
    let ls = lines_of(event);
    let ghost all = views(ls@);
    let mut data: Vec<char> = Vec::new();
    let mut i: usize = 0;
    while i < ls.len()
        invariant
            i <= ls.len(),
            all == views(ls@),
            all.len() == ls@.len(),
            data@ == event_data(all.take(i as int)),
        decreases ls.len() - i,
    {
        let line = &ls[i];
        assert(all.take(i + 1).drop_last() == all.take(i as int));
        assert(all[i as int] == line@);
        if begins_with(line, "data:") {
            proof {
                reveal_strlit("data:");
            }
            let rest = chars_between(line, 5, line.len());
            assert(rest@ == line@.skip(5));
            let mut part = left_trimmed(&rest, Class::White);
            data.append(&mut part);
        }
        assert(data@ =~= event_data(all.take(i + 1)));
        i = i + 1;
    }
    assert(all.take(all.len() as int) == all);
    let bare = trimmed_chars(&data, Class::White);
    let done = chars_of("[DONE]");
    if data.len() == 0 || same_chars(&bare, &done) {
        None
    } else {
        Some(string_of(&data))
    }
}

/// Regroups the frames of one streamed chat completion.
pub struct Pump {
    raw: String,
    tail: Vec<char>,
    template: Option<Json>,
    last: Option<Json>,
    role_done: bool,
    field: Field,
    acc: String,
}

impl Pump {
    /// What the pump remembers between two frames.
    pub closed spec fn gather(self) -> Gather {
        Gather {
            template: kept(self.template),
            last: kept(self.last),
            role_done: self.role_done,
            field: self.field,
            acc: self.acc@,
        }
    }

    /// The text after the last complete event.
    pub closed spec fn pending(self) -> Seq<char> {
        self.tail@
    }

    /// All text that the pump was fed.
    pub closed spec fn seen(self) -> Seq<char> {
        self.raw@
    }

    /// A pump for a stream that is about to begin.
    pub fn new() -> (r: Pump)
        ensures
            r.gather() == fresh(),
            r.pending() == Seq::<char>::empty(),
            r.seen() == Seq::<char>::empty(),
    {
        Pump {
            raw: String::new(),
            tail: Vec::new(),
            template: None,
            last: None,
            role_done: false,
            field: Field::Nothing,
            acc: String::new(),
        }
    }

    /// Sends the gathered text as one merged frame, if there is any.
    pub fn take_flush(&mut self) -> (r: Option<String>)
        ensures
            final(self).gather() == flushed(old(self).gather()),
            final(self).pending() == old(self).pending(),
            final(self).seen() == old(self).seen(),
            match r {
                Some(e) => event_texts(flush(old(self).gather())) == seq![e@],
                None => flush(old(self).gather()).len() == 0,
            },
    {
        if self.acc.as_str().is_empty() {
            return None;
        }
        let out = match &self.template {
            Some(t) => {
                let frame = match self.field {
                    Field::Reasoning => make_chunk(t, self.acc.as_str(), "", !self.role_done),
                    _ => make_chunk(t, "", self.acc.as_str(), !self.role_done),
                };
                proof {
                    reveal_strlit("");
                    assert(""@ =~= Seq::<char>::empty());
                    assert(frame.tree() == merged(self.gather(), t.tree()));
                }
                sse_bytes(&frame)
            },
            None => {
                return None;
            },
        };
        self.role_done = true;
        self.acc = String::new();
        assert(self.gather() =~= flushed(old(self).gather()));
        assert(event_texts(flush(old(self).gather())) =~= seq![out->Some_0@]);
        out
    }

    /// Sends the gathered text and adds its event, if there is one, to `out`.
    fn flush_into(&mut self, out: &mut Vec<String>)
        ensures
            final(self).gather() == flushed(old(self).gather()),
            final(self).pending() == old(self).pending(),
            final(self).seen() == old(self).seen(),
            texts(final(out)@) == texts(old(out)@) + event_texts(flush(old(self).gather())),
    {
        let e = self.take_flush();
        match e {
            Some(text) => {
                out.push(text);
                assert(texts(out@) =~= texts(old(out)@).push(text@));
                assert(texts(out@) =~= texts(old(out)@) + event_texts(
                    flush(old(self).gather()),
                ));
            },
            None => {
                assert(texts(out@) =~= texts(old(out)@) + event_texts(
                    flush(old(self).gather()),
                ));
            },
        }
    }

    /// Takes a text of the kind `field` in and adds the events that go out for it to
    /// `out`.
    fn gain_into(&mut self, field: Field, piece: &str, out: &mut Vec<String>)
        ensures
            final(self).gather() == gained(old(self).gather(), field, piece@),
            final(self).pending() == old(self).pending(),
            final(self).seen() == old(self).seen(),
            texts(final(out)@) == texts(old(out)@) + event_texts(
                gain(old(self).gather(), field, piece@),
            ),
    {
        let ghost g0 = self.gather();
        let ghost sent = texts(out@);
        if piece.is_empty() {
            assert(texts(out@) =~= sent + event_texts(gain(g0, field, piece@)));
            return ;
        }
        if self.field != field {
            self.flush_into(out);
            self.field = field;
        }
        let ghost g1 = self.gather();
        assert(g1 =~= turned(g0, field));
        assert(texts(out@) =~= sent + event_texts(turn(g0, field)));
        self.acc.append(piece);
        let limit: usize = match field {
            Field::Reasoning => MERGE_MIN_REASONING,
            _ => MERGE_MIN_CONTENT,
        };
        assert(self.gather() =~= (Gather { acc: g1.acc + piece@, ..g1 }));
        if self.acc.as_str().unicode_len() >= limit {
            self.flush_into(out);
        }
        assert(self.gather() =~= grown(g1, piece@));
        assert(texts(out@) =~= sent + event_texts(turn(g0, field) + growth(g1, piece@)));
    }

    /// Takes one frame from upstream and returns the events that go out for it. A frame
    /// may hold both reasoning and content, and neither is lost; the last frame waits
    /// for the end, but its text does not.
    pub fn absorb(&mut self, frame: Json) -> (r: Vec<String>)
        ensures
            final(self).gather() == absorbed(old(self).gather(), frame.tree()),
            final(self).pending() == old(self).pending(),
            final(self).seen() == old(self).seen(),
            texts(r@) == event_texts(emitted(old(self).gather(), frame.tree())),
    {
        let ghost g0 = self.gather();
        let ghost f = frame.tree();
        let mut out: Vec<String> = Vec::new();
        assert(texts(out@) =~= Seq::<Seq<char>>::empty());
        if self.template.is_none() {
            self.template = Some(frame.copy());
        }
        let ghost g1 = self.gather();
        assert(g1 =~= started(g0, f));

        if has_tool_delta(&frame) {
            self.flush_into(&mut out);
            self.field = Field::Nothing;
            let mut fwd = frame;
            normalize_finish(&mut fwd);
            let ghost sent = texts(out@);
            match sse_bytes(&fwd) {
                Some(e) => {
                    out.push(e);
                    assert(texts(out@) =~= sent.push(e@));
                },
                None => {},
            }
            proof {
                assert(self.gather() =~= absorbed(g0, f));
                assert(event_texts(flush(g1) + seq![normalized(f)]) =~= event_texts(flush(g1)).push(
                    sse_text(normalized(f)),
                ));
            }
            return out;
        }
        let reasoning = delta_str(&frame, "reasoning_content");
        let content = delta_str(&frame, "content");
        self.gain_into(Field::Reasoning, reasoning.as_str(), &mut out);
        let ghost g2 = self.gather();
        self.gain_into(Field::Content, content.as_str(), &mut out);
        let ghost g3 = self.gather();
        assert(g3 == filled(g1, f));
        assert(texts(out@) =~= event_texts(filling(g1, f)));
        let ghost sent = texts(out@);
        let finish = finish_str(&frame);
        if !finish.as_str().is_empty() {
            self.flush_into(&mut out);
            self.last = Some(frame);
        }
        proof {
            assert(self.gather() =~= noted(g3, f));
            assert(texts(out@) =~= sent + event_texts(noting(g3, f)));
            assert(event_texts(filling(g1, f) + noting(g3, f)) =~= sent + event_texts(
                noting(g3, f),
            ));
        }
        out
    }

    /// Takes a piece of the text of the stream and returns the events that go out
    /// for it. What is not yet a whole event waits for the next piece.
    pub fn feed_text(&mut self, text: &str) -> (r: Vec<String>)
        ensures
            ({
                let whole = old(self).pending() + text@;
                let fs = frames(events(whole));
                &&& final(self).pending() == remainder(whole)
                &&& final(self).seen() == old(self).seen() + text@
                &&& final(self).gather() == absorbed_all(old(self).gather(), fs)
                &&& texts(r@) == event_texts(emitted_all(old(self).gather(), fs))
            }),
    {
        let ghost g0 = self.gather();
        self.raw.append(text);
        let ghost seen = self.seen();
        let mut whole: Vec<char> = Vec::new();
        whole.append(&mut self.tail);
        let mut more = chars_of(text);
        whole.append(&mut more);
        let ghost w = whole@;
        assert(w =~= old(self).pending() + text@);
        let gap = chars_of("\n\n");
        proof {
            reveal_strlit("\n\n");
        }
        let mut out: Vec<String> = Vec::new();
        let mut pos: usize = 0;
        let ghost mut done: Seq<Seq<char>> = Seq::empty();
        proof {
            assert(w.skip(0) == w);
            assert(done + events(w) =~= events(w));
            assert(texts(out@) =~= event_texts(emitted_all(g0, frames(done))));
            assert(self.gather() =~= g0);
        }
        loop
            invariant
                whole@ == w,
                gap@ == "\n\n"@,
                gap@.len() == 2,
                pos <= w.len(),
                events(w) == done + events(w.skip(pos as int)),
                remainder(w) == remainder(w.skip(pos as int)),
                self.seen() == seen,
                self.gather() == absorbed_all(g0, frames(done)),
                texts(out@) == event_texts(emitted_all(g0, frames(done))),
            ensures
                events(w) == done,
                remainder(w) == w.skip(pos as int),
                pos <= w.len(),
            decreases w.len() - pos,
        {
            let next = position_from(&whole, &gap, pos);
            proof {
                lemma_find_shift(w, gap@, pos as int, 0);
            }
            match next {
                None => {
                    assert(done + events(w.skip(pos as int)) =~= done);
                    break ;
                },
                Some(k) => {
                    let event = chars_between(&whole, pos, k);
                    proof {
                        let rest = w.skip(pos as int);
                        assert(event@ == rest.take(k - pos));
                        assert(rest.skip(k - pos + 2) == w.skip(k + 2));
                        assert(done + events(rest) =~= done.push(event@) + events(w.skip(k + 2)));
                        assert(done.push(event@).drop_last() == done);
                    }
                    let ghost earlier = frames(done);
                    let frame = match event_payload(&event) {
                        Some(data) => parse(data.as_str()),
                        None => None,
                    };
                    match frame {
                        Some(f) => {
                            let ghost before = texts(out@);
                            let ghost g = self.gather();
                            let mut events = self.absorb(f);
                            let ghost added = texts(events@);
                            let ghost old_out = out@;
                            let ghost new_events = events@;
                            out.append(&mut events);
                            proof {
                                assert(frames(done.push(event@)) == earlier.push(f.tree()));
                                assert(earlier.push(f.tree()).drop_last() == earlier);
                                assert(out@ =~= old_out + new_events);
                                assert(texts(out@) =~= before + added);
                                assert(event_texts(emitted_all(g0, earlier) + emitted(g, f.tree()))
                                    =~= before + added);
                            }
                        },
                        None => {
                            assert(frames(done.push(event@)) == earlier);
                        },
                    }
                    proof {
                        done = done.push(event@);
                    }
                    pos = k + 2;
                },
            }
        }
        self.tail = chars_between(&whole, pos, whole.len());
        assert(self.tail@ == w.skip(pos as int));
        out
    }

    /// Takes a piece of the bytes of the stream and returns the events that go out
    /// for it.
    pub fn feed(&mut self, bytes: &[u8]) -> (r: Vec<String>)
        ensures
            ({
                let whole = old(self).pending() + utf8_lossy(bytes@);
                let fs = frames(events(whole));
                &&& final(self).pending() == remainder(whole)
                &&& final(self).seen() == old(self).seen() + utf8_lossy(bytes@)
                &&& final(self).gather() == absorbed_all(old(self).gather(), fs)
                &&& texts(r@) == event_texts(emitted_all(old(self).gather(), fs))
            }),
    {
        let text = decode_lossy(bytes);
        self.feed_text(text.as_str())
    }

    /// Ends the stream and returns the events that go out for that: what was
    /// gathered, the last frame, and the closing event.
    pub fn finish(&mut self) -> (r: Vec<String>)
        ensures
            final(self).gather() == flushed(old(self).gather()),
            final(self).pending() == old(self).pending(),
            final(self).seen() == old(self).seen(),
            texts(r@) == last_events(old(self).gather()),
    {
        let ghost g0 = self.gather();
        let mut out: Vec<String> = Vec::new();
        assert(texts(out@) =~= Seq::<Seq<char>>::empty());
        self.flush_into(&mut out);
        let ghost sent = texts(out@);
        assert(sent =~= event_texts(flush(g0)));
        match &self.last {
            Some(last) => {
                let frame = closing_frame(last);
                match sse_bytes(&frame) {
                    Some(e) => {
                        out.push(e);
                        assert(texts(out@) =~= sent.push(e@));
                    },
                    None => {},
                }
                assert(g0.last == Some(last.tree()));
            },
            None => {},
        }
        let ghost sent2 = texts(out@);
        assert(sent2 =~= event_texts(ending(g0)));
        out.push("data: [DONE]\n\n".to_owned());
        assert(texts(out@) =~= sent2.push("data: [DONE]\n\n"@));
        out
    }

    /// The usage that the stream reported last.
    pub fn usage(&self) -> (r: Option<Json>)
        ensures
            match r {
                Some(u) => last_usage(lines(self.seen())) == Some(u.tree()),
                None => last_usage(lines(self.seen())) is None,
            },
    {
        usage_from_sse(self.raw.as_str())
    }
}

} // verus!
