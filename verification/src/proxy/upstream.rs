//! What is sent to upstream.

use vstd::prelude::*;

use crate::edition::Edition;
use crate::json::{Json, Tree};
use crate::text::{
    chars_of, hex, hex_digit, hex_of, joined, lemma_hex_length, string_between, string_of,
};
use crate::text_laws::hexadecimal_digits;

verus! {

/// The address of chat completions.
pub fn chat_url() -> (r: String)
    ensures
        r@ == Edition::Domestic.api_endpoint_text() + "/v2/chat/completions"@,
{
    joined(Edition::Domestic.api_endpoint(), "/v2/chat/completions")
}

/// The address of the models.
pub fn models_url() -> (r: String)
    ensures
        r@ == Edition::Domestic.api_endpoint_text() + "/v2/enterprises/personal/models"@,
{
    joined(Edition::Domestic.api_endpoint(), "/v2/enterprises/personal/models")
}

/// The identifier that is made at a time, in nanoseconds: 32 hexadecimal digits.
pub open spec fn id_at(nanos: u128) -> Seq<char> {
    hex((nanos ^ 0x5eed_5eed_5eed_5eedu128) as nat, 32)
}

/// The identifier that is made at a time, in nanoseconds: 32 hexadecimal digits.
pub fn hex_id(nanos: u128) -> (r: String)
    ensures
        r@ == id_at(nanos),
        r@.len() == 32,
{
    let n = nanos ^ 0x5eed_5eed_5eed_5eedu128;
    let v = hex_of(n, 32);
    proof {
        lemma_hex_length(n as nat, 32);
    }
    string_of(&v)
}

/// A header with a value, or the header that says that there is none.
pub open spec fn given(
    value: Seq<char>,
    name: Seq<char>,
    before: Seq<char>,
    absent: Seq<char>,
) -> (Seq<char>, Seq<char>) {
    if value.len() > 0 {
        (name, before + value)
    } else {
        (absent, "1"@)
    }
}

/// The headers that do not depend on the account or the request.
pub open spec fn fixed_headers() -> Seq<(Seq<char>, Seq<char>)> {
    seq![
        ("Content-Type"@, "application/json"@),
        ("Accept"@, "application/json, text/event-stream"@),
        ("X-Requested-With"@, "XMLHttpRequest"@),
        ("Origin"@, "https://www.codebuddy.cn"@),
        ("Referer"@, "https://www.codebuddy.cn/"@),
        ("User-Agent"@, "WorkBuddy/5.5.4 WorkBuddy/5.5.4 CLI/2.137.1"@),
        ("X-CodeBuddy-Request"@, "1"@),
        ("Accept-Language"@, "zh-CN"@),
        ("X-Agent-Purpose"@, "conversation"@),
        ("X-IDE-Name"@, "WorkBuddy"@),
        ("X-IDE-Type"@, "desktop"@),
        ("X-Product"@, "WorkBuddy"@),
        ("X-B3-Sampled"@, "1"@),
    ]
}

/// The headers of an account.
pub open spec fn account_headers(acc: Tree) -> Seq<(Seq<char>, Seq<char>)> {
    let none = Seq::<char>::empty();
    seq![
        given(
            acc.text_or_empty("access_token"@),
            "Authorization"@,
            "Bearer "@,
            "X-No-Authorization"@,
        ),
        given(acc.text_or_empty("uid"@), "X-User-Id"@, none, "X-No-User-Id"@),
        given(acc.text_or_empty("domain"@), "X-Domain"@, none, "X-No-Department-Info"@),
        given(
            acc.text_or_empty("enterpriseId"@),
            "X-Enterprise-Id"@,
            none,
            "X-No-Enterprise-Id"@,
        ),
    ]
}

/// The headers of one round of a conversation: `conv` names the round, `msg` the
/// message.
pub open spec fn round_headers(conv: Seq<char>, msg: Seq<char>) -> Seq<(Seq<char>, Seq<char>)> {
    seq![
        ("X-Conversation-Request-ID"@, conv),
        ("X-Conversation-Message-ID"@, msg),
        ("X-Request-ID"@, msg),
        ("X-Root-Request-ID"@, conv),
        ("X-Trace-ID"@, conv),
        ("X-B3-TraceId"@, conv),
        ("X-B3-SpanId"@, msg.take(16)),
    ]
}

/// All headers of a request.
pub open spec fn headers_of(acc: Tree, conv: Seq<char>, msg: Seq<char>) -> Seq<
    (Seq<char>, Seq<char>),
> {
    fixed_headers() + account_headers(acc) + round_headers(conv, msg)
}

/// Headers as texts.
pub open spec fn pairs(v: Seq<(String, String)>) -> Seq<(Seq<char>, Seq<char>)> {
    v.map_values(|p: (String, String)| (p.0@, p.1@))
}

/// Adds a header.
fn push_header(h: &mut Vec<(String, String)>, name: &str, value: &str)
    ensures
        pairs(final(h)@) == pairs(old(h)@).push((name@, value@)),
{
    let ghost before = h@;
    h.push((name.to_owned(), value.to_owned()));
    assert(pairs(h@) =~= pairs(before).push((name@, value@)));
}

/// Adds a header with a value, or the header that says that there is none.
fn push_given(h: &mut Vec<(String, String)>, value: &str, name: &str, before: &str, absent: &str)
    ensures
        pairs(final(h)@) == pairs(old(h)@).push(given(value@, name@, before@, absent@)),
{
    if value.is_empty() {
        push_header(h, absent, "1");
    } else {
        let whole = joined(before, value);
        push_header(h, name, whole.as_str());
    }
}

/// The headers of a request for an account, with the identifiers of its round and
/// its message made at the two times given, in nanoseconds.
pub fn chat_headers(acc: &Json, conv_nanos: u128, msg_nanos: u128) -> (r: Vec<(String, String)>)
    ensures
        pairs(r@) == headers_of(acc.tree(), id_at(conv_nanos), id_at(msg_nanos)),
{
    let conv = hex_id(conv_nanos);
    let msg = hex_id(msg_nanos);
    let mut h: Vec<(String, String)> = Vec::new();
    push_header(&mut h, "Content-Type", "application/json");
    push_header(&mut h, "Accept", "application/json, text/event-stream");
    push_header(&mut h, "X-Requested-With", "XMLHttpRequest");
    push_header(&mut h, "Origin", "https://www.codebuddy.cn");
    push_header(&mut h, "Referer", "https://www.codebuddy.cn/");
    push_header(&mut h, "User-Agent", "WorkBuddy/5.5.4 WorkBuddy/5.5.4 CLI/2.137.1");
    push_header(&mut h, "X-CodeBuddy-Request", "1");
    push_header(&mut h, "Accept-Language", "zh-CN");
    push_header(&mut h, "X-Agent-Purpose", "conversation");
    push_header(&mut h, "X-IDE-Name", "WorkBuddy");
    push_header(&mut h, "X-IDE-Type", "desktop");
    push_header(&mut h, "X-Product", "WorkBuddy");
    push_header(&mut h, "X-B3-Sampled", "1");
    assert(pairs(h@) =~= fixed_headers());
    let token = acc.str_or_empty("access_token");
    push_given(&mut h, token.as_str(), "Authorization", "Bearer ", "X-No-Authorization");
    let uid = acc.str_or_empty("uid");
    push_given(&mut h, uid.as_str(), "X-User-Id", "", "X-No-User-Id");
    let domain = acc.str_or_empty("domain");
    push_given(&mut h, domain.as_str(), "X-Domain", "", "X-No-Department-Info");
    let enterprise = acc.str_or_empty("enterpriseId");
    push_given(&mut h, enterprise.as_str(), "X-Enterprise-Id", "", "X-No-Enterprise-Id");
    proof {
        reveal_strlit("");
        assert(""@ =~= Seq::<char>::empty());
        assert(pairs(h@) =~= fixed_headers() + account_headers(acc.tree()));
    }
    let ghost so_far = pairs(h@);
    let chars = chars_of(msg.as_str());
    let span = string_between(&chars, 0, 16);
    assert(span@ =~= msg@.take(16));
    push_header(&mut h, "X-Conversation-Request-ID", conv.as_str());
    push_header(&mut h, "X-Conversation-Message-ID", msg.as_str());
    push_header(&mut h, "X-Request-ID", msg.as_str());
    push_header(&mut h, "X-Root-Request-ID", conv.as_str());
    push_header(&mut h, "X-Trace-ID", conv.as_str());
    push_header(&mut h, "X-B3-TraceId", conv.as_str());
    push_header(&mut h, "X-B3-SpanId", span.as_str());
    assert(pairs(h@) =~= so_far + round_headers(conv@, msg@));
    h
}

/// The model of a request.
pub open spec fn model_of(incoming: Tree) -> Seq<char> {
    match incoming.text_of("model"@) {
        Some(s) => s,
        None => "deepseek-v4-flash"@,
    }
}

/// The model of a request.
pub fn request_model(incoming: &Json) -> (r: String)
    ensures
        r@ == model_of(incoming.tree()),
{
    match incoming.str_of("model") {
        Some(s) => s.to_owned(),
        None => "deepseek-v4-flash".to_owned(),
    }
}

/// `body` with the member `k` of `incoming`, if it has one.
pub open spec fn carried(body: Tree, incoming: Tree, k: Seq<char>) -> Tree {
    match incoming.get(k) {
        Some(v) => body.with(k, v),
        None => body,
    }
}

/// The body that is sent to upstream for a request: always a stream, and of the
/// other settings those that upstream knows.
pub open spec fn upstream_body(incoming: Tree) -> Tree {
    let base = Tree::Dict(
        Map::<Seq<char>, Tree>::empty().insert("model"@, Tree::Text(model_of(incoming))).insert(
            "messages"@,
            match incoming.get("messages"@) {
                Some(m) => m,
                None => Tree::List(Seq::empty()),
            },
        ).insert("stream"@, Tree::Bool(true)),
    );
    let a = carried(base, incoming, "temperature"@);
    let b = carried(a, incoming, "top_p"@);
    let c = carried(b, incoming, "max_tokens"@);
    carried(c, incoming, "tools"@)
}

/// Sets the member `k` of `body` to that of `incoming`, if it has one.
fn carry(body: &mut Json, incoming: &Json, k: &str)
    ensures
        final(body).tree() == carried(old(body).tree(), incoming.tree(), k@),
{
    match incoming.get(k) {
        Some(v) => {
            body.set(k, v.copy());
        },
        None => {},
    }
}

/// The body that is sent to upstream for a request.
pub fn build_upstream_body(incoming: &Json) -> (r: Json)
    ensures
        r.tree() == upstream_body(incoming.tree()),
{
    let model = request_model(incoming);
    let messages = match incoming.get("messages") {
        Some(m) => m.copy(),
        None => {
            let none: Vec<Json> = Vec::new();
            let list = Json::List(none);
            assert(list.tree()->List_0 =~= Seq::<Tree>::empty());
            list
        },
    };
    let mut body = Json::dict();
    body.set("model", Json::text(model.as_str()));
    body.set("messages", messages);
    body.set("stream", Json::Bool(true));
    carry(&mut body, incoming, "temperature");
    carry(&mut body, incoming, "top_p");
    carry(&mut body, incoming, "max_tokens");
    carry(&mut body, incoming, "tools");
    body
}

/// Whether upstream knows a setting of this name.
pub open spec fn known_setting(k: Seq<char>) -> bool {
    k == "temperature"@ || k == "top_p"@ || k == "max_tokens"@ || k == "tools"@
}

/// The names of members of a request differ from each other.
pub(crate) proof fn lemma_request_names()
    ensures
        "stream"@ != "temperature"@,
        "stream"@ != "top_p"@,
        "stream"@ != "max_tokens"@,
        "stream"@ != "tools"@,
        "stream"@ != "model"@,
        "stream"@ != "messages"@,
        "model"@ != "temperature"@,
        "model"@ != "top_p"@,
        "model"@ != "max_tokens"@,
        "model"@ != "tools"@,
        "model"@ != "messages"@,
        "messages"@ != "temperature"@,
        "messages"@ != "top_p"@,
        "messages"@ != "max_tokens"@,
        "messages"@ != "tools"@,
        "top_p"@ != "tools"@,
        "top_p"@ != "temperature"@,
        "max_tokens"@ != "temperature"@,
        "max_tokens"@ != "top_p"@,
        "max_tokens"@ != "tools"@,
        "temperature"@ != "tools"@,
{
    reveal_strlit("stream");
    reveal_strlit("temperature");
    reveal_strlit("top_p");
    reveal_strlit("max_tokens");
    reveal_strlit("tools");
    reveal_strlit("model");
    reveal_strlit("messages");
    assert("stream"@.len() == 6);
    assert("temperature"@.len() == 11);
    assert("top_p"@.len() == 5);
    assert("max_tokens"@.len() == 10);
    assert("tools"@.len() == 5);
    assert("model"@.len() == 5);
    assert("messages"@.len() == 8);
    assert("top_p"@[2] == 'p');
    assert("tools"@[2] == 'o');
    assert("model"@[0] == 'm');
    assert("tools"@[0] == 't');
    assert("top_p"@[0] == 't');
}

/// Upstream is always asked for a stream, whatever the client asked for; it gets the
/// settings that it knows as the client gave them, and no others.
pub proof fn upstream_gets_a_stream(incoming: Tree, k: Seq<char>)
    ensures
        upstream_body(incoming).get("stream"@) == Some(Tree::Bool(true)),
        upstream_body(incoming).get("model"@) == Some(Tree::Text(model_of(incoming))),
        known_setting(k) ==> upstream_body(incoming).get(k) == incoming.get(k),
        !known_setting(k) && k != "stream"@ && k != "model"@ && k != "messages"@
            ==> upstream_body(incoming).get(k) is None,
        incoming.get("messages"@) matches Some(m) ==> upstream_body(incoming).get("messages"@)
            == Some(m),
{
    lemma_request_names();
}

/// Sixteen to the power `w`.
spec fn sixteen_to(w: nat) -> nat
    decreases w,
{
    if w == 0 {
        1
    } else {
        16 * sixteen_to((w - 1) as nat)
    }
}

/// Numbers with the same digits are the same.
proof fn lemma_hex_tells_apart(a: nat, b: nat, w: nat)
    requires
        a < sixteen_to(w),
        b < sixteen_to(w),
        hex(a, w) == hex(b, w),
    ensures
        a == b,
    decreases w,
{
    if w > 0 {
        let k = (w - 1) as nat;
        assert(hex(a, w).drop_last() =~= hex(a / 16, k));
        assert(hex(b, w).drop_last() =~= hex(b / 16, k));
        assert(hex(a, w).last() == hex_digit((a % 16) as int));
        assert(hex(b, w).last() == hex_digit((b % 16) as int));
        lemma_hex_tells_apart(a / 16, b / 16, k);
    }
}

/// Identifiers that are made at different times differ.
pub proof fn identifiers_differ_with_time(a: u128, b: u128)
    requires
        a != b,
    ensures
        id_at(a) != id_at(b),
{
    let x = a ^ 0x5eed_5eed_5eed_5eedu128;
    let y = b ^ 0x5eed_5eed_5eed_5eedu128;
    assert(x != y) by (bit_vector)
        requires
            a != b,
            x == a ^ 0x5eed_5eed_5eed_5eedu128,
            y == b ^ 0x5eed_5eed_5eed_5eedu128,
    ;
    reveal_with_fuel(sixteen_to, 33);
    assert(sixteen_to(32) == u128::MAX + 1);
    if id_at(a) == id_at(b) {
        lemma_hex_tells_apart(x as nat, y as nat, 32);
    }
}

/// Whether the header `name` with the value `value` is among headers.
pub open spec fn sends(hs: Seq<(Seq<char>, Seq<char>)>, name: Seq<char>, value: Seq<char>) -> bool {
    exists|i: int| 0 <= i < hs.len() && #[trigger] hs[i] == (name, value)
}

/// A header at a position is among headers.
proof fn lemma_sends(hs: Seq<(Seq<char>, Seq<char>)>, i: int)
    requires
        0 <= i < hs.len(),
    ensures
        sends(hs, hs[i].0, hs[i].1),
{
    assert(hs[i] == (hs[i].0, hs[i].1));
}

/// What is known of an account goes out with a request, under its name; of what is not
/// known, a header says so.
pub proof fn headers_tell_of_the_account(acc: Tree, conv: Seq<char>, msg: Seq<char>)
    ensures
        ({
            let hs = headers_of(acc, conv, msg);
            &&& match acc.get("access_token"@) {
                Some(Tree::Text(s)) => if s.len() > 0 {
                    sends(hs, "Authorization"@, "Bearer "@ + s)
                } else {
                    sends(hs, "X-No-Authorization"@, "1"@)
                },
                _ => sends(hs, "X-No-Authorization"@, "1"@),
            }
            &&& match acc.get("uid"@) {
                Some(Tree::Text(s)) => if s.len() > 0 {
                    sends(hs, "X-User-Id"@, s)
                } else {
                    sends(hs, "X-No-User-Id"@, "1"@)
                },
                _ => sends(hs, "X-No-User-Id"@, "1"@),
            }
            &&& match acc.get("domain"@) {
                Some(Tree::Text(s)) => if s.len() > 0 {
                    sends(hs, "X-Domain"@, s)
                } else {
                    sends(hs, "X-No-Department-Info"@, "1"@)
                },
                _ => sends(hs, "X-No-Department-Info"@, "1"@),
            }
            &&& match acc.get("enterpriseId"@) {
                Some(Tree::Text(s)) => if s.len() > 0 {
                    sends(hs, "X-Enterprise-Id"@, s)
                } else {
                    sends(hs, "X-No-Enterprise-Id"@, "1"@)
                },
                _ => sends(hs, "X-No-Enterprise-Id"@, "1"@),
            }
            &&& hs.len() == 24
        }),
{
    let hs = headers_of(acc, conv, msg);
    let none = Seq::<char>::empty();
    lemma_sends(hs, 13);
    lemma_sends(hs, 14);
    lemma_sends(hs, 15);
    lemma_sends(hs, 16);
    assert(none + acc.text_or_empty("uid"@) =~= acc.text_or_empty("uid"@));
    assert(none + acc.text_or_empty("domain"@) =~= acc.text_or_empty("domain"@));
    assert(none + acc.text_or_empty("enterpriseId"@) =~= acc.text_or_empty("enterpriseId"@));
}

/// The names of a round and of its message go out with a request: four headers name the
/// round, two the message, and one has the first sixteen characters of the message's name.
pub proof fn headers_name_the_round(acc: Tree, conv: Seq<char>, msg: Seq<char>)
    ensures
        ({
            let hs = headers_of(acc, conv, msg);
            &&& sends(hs, "X-Conversation-Request-ID"@, conv)
            &&& sends(hs, "X-Root-Request-ID"@, conv)
            &&& sends(hs, "X-Trace-ID"@, conv)
            &&& sends(hs, "X-B3-TraceId"@, conv)
            &&& sends(hs, "X-Conversation-Message-ID"@, msg)
            &&& sends(hs, "X-Request-ID"@, msg)
            &&& sends(hs, "X-B3-SpanId"@, msg.subrange(0, 16))
        }),
{
    let hs = headers_of(acc, conv, msg);
    lemma_sends(hs, 17);
    lemma_sends(hs, 18);
    lemma_sends(hs, 19);
    lemma_sends(hs, 20);
    lemma_sends(hs, 21);
    lemma_sends(hs, 22);
    lemma_sends(hs, 23);
}

/// Whatever the account and the request, upstream is told what is sent and expected, and
/// that it is the client program that asks.
pub proof fn headers_tell_of_the_client(acc: Tree, conv: Seq<char>, msg: Seq<char>)
    ensures
        ({
            let hs = headers_of(acc, conv, msg);
            &&& sends(hs, "Content-Type"@, "application/json"@)
            &&& sends(hs, "Accept"@, "application/json, text/event-stream"@)
            &&& sends(hs, "X-Requested-With"@, "XMLHttpRequest"@)
            &&& sends(hs, "Origin"@, "https://www.codebuddy.cn"@)
            &&& sends(hs, "Referer"@, "https://www.codebuddy.cn/"@)
            &&& sends(hs, "User-Agent"@, "WorkBuddy/5.5.4 WorkBuddy/5.5.4 CLI/2.137.1"@)
            &&& sends(hs, "X-CodeBuddy-Request"@, "1"@)
            &&& sends(hs, "Accept-Language"@, "zh-CN"@)
            &&& sends(hs, "X-Agent-Purpose"@, "conversation"@)
            &&& sends(hs, "X-IDE-Name"@, "WorkBuddy"@)
            &&& sends(hs, "X-IDE-Type"@, "desktop"@)
            &&& sends(hs, "X-Product"@, "WorkBuddy"@)
            &&& sends(hs, "X-B3-Sampled"@, "1"@)
        }),
{
    let hs = headers_of(acc, conv, msg);
    lemma_sends(hs, 0);
    lemma_sends(hs, 1);
    lemma_sends(hs, 2);
    lemma_sends(hs, 3);
    lemma_sends(hs, 4);
    lemma_sends(hs, 5);
    lemma_sends(hs, 6);
    lemma_sends(hs, 7);
    lemma_sends(hs, 8);
    lemma_sends(hs, 9);
    lemma_sends(hs, 10);
    lemma_sends(hs, 11);
    lemma_sends(hs, 12);
}

/// Identifiers have 32 hexadecimal digits.
pub proof fn identifiers_have_their_form(nanos: u128, i: int)
    requires
        0 <= i < 32,
    ensures
        id_at(nanos).len() == 32,
        '0' <= id_at(nanos)[i] <= '9' || 'a' <= id_at(nanos)[i] <= 'f',
{
    let n = (nanos ^ 0x5eed_5eed_5eed_5eedu128) as nat;
    lemma_hex_length(n, 32);
    hexadecimal_digits(n, 32, i);
}

} // verus!
