//! Usage statistics: what each request through the gateway consumed, in total, by
//! account, by model, and for the latest requests one by one.

use vstd::prelude::*;

use crate::json::{json_parse, json_pretty, kept, opt_tree, parse, to_text_pretty, Json, Tree};
use crate::text::{
    begins_with, chars_between, chars_of, has_prefix, lines, lines_of, same_chars, string_of, trim,
    trimmed_chars, views, Class,
};

verus! {

/// How many of the latest requests are kept one by one.
pub const USAGE_RECENT_MAX: usize = 100;

/// What a request is counted under.
pub struct UsageMeta {
    pub uid: String,
    pub nickname: String,
    pub model: String,
    pub stream: bool,
}

/// An object with the given counters at zero.
pub open spec fn zero_counters() -> Map<Seq<char>, Tree> {
    Map::empty().insert("requests"@, Tree::Int(0)).insert("errors"@, Tree::Int(0)).insert(
        "promptTokens"@,
        Tree::Int(0),
    ).insert("completionTokens"@, Tree::Int(0)).insert("credit"@, Tree::Int(0))
}

/// The statistics before the first request.
pub open spec fn no_usage() -> Tree {
    let none = Map::<Seq<char>, Tree>::empty();
    Tree::Dict(
        none.insert("updatedAt"@, Tree::Int(0)).insert("total"@, Tree::Dict(zero_counters())).insert(
            "byAccount"@,
            Tree::Dict(none),
        ).insert("byModel"@, Tree::Dict(none)).insert("recent"@, Tree::List(Seq::empty())),
    )
}

/// An object with all counters at zero.
fn counters() -> (r: Json)
    ensures
        r.tree() == Tree::Dict(zero_counters()),
{
    let mut d = Json::dict();
    d.set("requests", Json::integer(0));
    d.set("errors", Json::integer(0));
    d.set("promptTokens", Json::integer(0));
    d.set("completionTokens", Json::integer(0));
    d.set("credit", Json::integer(0));
    d
}

/// The statistics before the first request.
pub fn empty_usage() -> (r: Json)
    ensures
        r.tree() == no_usage(),
{
    let mut d = Json::dict();
    d.set("updatedAt", Json::integer(0));
    d.set("total", counters());
    d.set("byAccount", Json::dict());
    d.set("byModel", Json::dict());
    let none: Vec<Json> = Vec::new();
    let list = Json::List(none);
    assert(list.tree()->List_0 =~= Seq::<Tree>::empty());
    d.set("recent", list);
    d
}

/// The statistics that a stored document stands for: the document if it has a
/// total, else none.
pub open spec fn stored_usage(doc: Option<Tree>) -> Tree {
    match doc {
        Some(t) => if t.get("total"@) is Some {
            t
        } else {
            no_usage()
        },
        None => no_usage(),
    }
}

/// The statistics that a stored document stands for.
pub fn usage_or_empty(doc: Option<Json>) -> (r: Json)
    ensures
        r.tree() == stored_usage(kept(doc)),
{
    match doc {
        Some(j) => if j.get("total").is_some() {
            j
        } else {
            empty_usage()
        },
        None => empty_usage(),
    }
}

/// The statistics that the text of their file stands for; a file that is missing or
/// damaged stands for none.
pub fn load_usage(file: Option<&str>) -> (r: Json)
    ensures
        r.tree() == stored_usage(
            match file {
                Some(text) => json_parse(text@),
                None => None,
            },
        ),
        r.tree() is Dict,
{
    match file {
        Some(text) => usage_or_empty(parse(text)),
        None => empty_usage(),
    }
}

/// The statistics after they have been cleared at the time `now_ms`.
pub open spec fn cleared(now_ms: i64) -> Tree {
    no_usage().with("updatedAt"@, Tree::Int(now_ms as int))
}

/// The statistics after they have been cleared at the time `now_ms`.
pub fn reset_usage(now_ms: i64) -> (r: Json)
    ensures
        r.tree() == cleared(now_ms),
{
    let mut d = empty_usage();
    d.set("updatedAt", Json::integer(now_ms));
    d
}

/// The text of the file that statistics are kept in.
pub fn usage_file(doc: &Json) -> (r: Option<String>)
    ensures
        r is Some,
        r->Some_0@ == json_pretty(doc.tree()),
{
    to_text_pretty(doc)
}

/// The count `key` of a usage block, or zero.
pub open spec fn count_of(usage: Option<Tree>, key: Seq<char>) -> i64 {
    match usage {
        Some(u) => match u.int_of(key) {
            Some(n) => n,
            None => 0,
        },
        None => 0,
    }
}

/// The count `key` of a usage block, or zero.
pub fn usage_num(usage: Option<&Json>, key: &str) -> (r: i64)
    ensures
        r == count_of(opt_tree(usage), key@),
{
    match usage {
        Some(u) => match u.int_of(key) {
            Some(n) => n,
            None => 0,
        },
        None => 0,
    }
}

/// The member `key` of `t`, if it is a number.
pub open spec fn number_at(t: Option<Tree>, key: Seq<char>) -> Option<Tree> {
    match t {
        Some(u) => match u.get(key) {
            Some(n) => if n is Int || n is Real {
                Some(n)
            } else {
                None
            },
            None => None,
        },
        None => None,
    }
}

/// The credit of a usage block or of counters, if it is a number.
pub fn usage_credit(usage: Option<&Json>) -> (r: Option<&Json>)
    ensures
        opt_tree(r) == number_at(opt_tree(usage), "credit"@),
{
    match usage {
        Some(u) => match u.get("credit") {
            Some(Json::Num(n)) => u.get("credit"),
            _ => None,
        },
        None => None,
    }
}

/// The usage block of one upstream document, unless it is missing or null.
pub open spec fn block_of(v: Tree) -> Option<Tree> {
    match v.get("usage"@) {
        Some(u) => if u is Null {
            None
        } else {
            Some(u)
        },
        None => None,
    }
}

/// The data of one line of a stream, unless it has none or closes the stream.
pub open spec fn line_payload(line: Seq<char>) -> Option<Seq<char>> {
    if !has_prefix(line, "data:"@) {
        None
    } else {
        let p = trim(line.skip(5));
        if p.len() == 0 || p == "[DONE]"@ {
            None
        } else {
            Some(p)
        }
    }
}

/// The document on one line of a stream.
pub open spec fn line_document(line: Seq<char>) -> Option<Tree> {
    match line_payload(line) {
        Some(p) => json_parse(p),
        None => None,
    }
}

/// The usage block on one line of a stream.
pub open spec fn line_usage(line: Seq<char>) -> Option<Tree> {
    match line_document(line) {
        Some(v) => block_of(v),
        None => None,
    }
}

/// The last usage block on the lines of a stream.
pub open spec fn last_usage(ls: Seq<Seq<char>>) -> Option<Tree>
    decreases ls.len(),
{
    if ls.len() == 0 {
        None
    } else {
        match line_usage(ls.last()) {
            Some(u) => Some(u),
            None => last_usage(ls.drop_last()),
        }
    }
}

/// The data of one line of a stream, unless it has none or closes the stream.
pub fn payload_of_line(line: &Vec<char>) -> (r: Option<String>)
    ensures
        match r {
            Some(p) => line_payload(line@) == Some(p@),
            None => line_payload(line@) is None,
        },
{
    if !begins_with(line, "data:") {
        return None;
    }
    proof {
        reveal_strlit("data:");
    }
    let rest = chars_between(line, 5, line.len());
    assert(rest@ == line@.skip(5));
    let bare = trimmed_chars(&rest, Class::White);
    let done = chars_of("[DONE]");
    if bare.len() == 0 || same_chars(&bare, &done) {
        None
    } else {
        Some(string_of(&bare))
    }
}

/// The document on one line of a stream.
pub fn document_of_line(line: &Vec<char>) -> (r: Option<Json>)
    ensures
        match r {
            Some(j) => line_document(line@) == Some(j.tree()),
            None => line_document(line@) is None,
        },
{
    match payload_of_line(line) {
        Some(p) => parse(p.as_str()),
        None => None,
    }
}

/// The usage block of one upstream document, unless it is missing or null.
pub fn usage_block(v: &Json) -> (r: Option<Json>)
    ensures
        match r {
            Some(u) => block_of(v.tree()) == Some(u.tree()),
            None => block_of(v.tree()) is None,
        },
{
    match v.get("usage") {
        Some(u) => if u.is_null() {
            None
        } else {
            Some(u.copy())
        },
        None => None,
    }
}

/// The last usage block in the text of a stream.
pub fn usage_from_sse(text: &str) -> (r: Option<Json>)
    ensures
        match r {
            Some(u) => last_usage(lines(text@)) == Some(u.tree()),
            None => last_usage(lines(text@)) is None,
        },
{
    let v = chars_of(text);
    let ls = lines_of(&v);
    let ghost all = views(ls@);
    let mut last: Option<Json> = None;
    let mut i: usize = 0;
    while i < ls.len()
        invariant
            i <= ls.len(),
            all == views(ls@),
            match last {
                Some(u) => last_usage(all.take(i as int)) == Some(u.tree()),
                None => last_usage(all.take(i as int)) is None,
            },
        decreases ls.len() - i,
    {
        assert(all.take(i + 1).drop_last() == all.take(i as int));
        assert(all.take(i + 1).last() == ls@[i as int]@);
        let block = match document_of_line(&ls[i]) {
            Some(d) => usage_block(&d),
            None => None,
        };
        if block.is_some() {
            last = block;
        }
        i = i + 1;
    }
    assert(all.take(all.len() as int) == all);
    last
}

/// The credits that go into the statistics with one request. They are fractional
/// numbers, so the caller adds them up.
pub struct Credits {
    /// What the request cost.
    pub spent: Json,
    /// The credit of the total with it.
    pub total: Json,
    /// The credit of its account with it.
    pub account: Json,
    /// The credit of its model with it.
    pub model: Json,
}

/// One request as the statistics see it.
pub struct Request {
    pub uid: Seq<char>,
    pub nickname: Seq<char>,
    pub model: Seq<char>,
    pub stream: bool,
    pub prompt: i64,
    pub completion: i64,
    pub ok: bool,
}

/// The request described by its meta data and its usage block.
pub open spec fn request(meta: UsageMeta, usage: Option<Tree>, ok: bool) -> Request {
    Request {
        uid: meta.uid@,
        nickname: meta.nickname@,
        model: meta.model@,
        stream: meta.stream,
        prompt: count_of(usage, "prompt_tokens"@),
        completion: count_of(usage, "completion_tokens"@),
        ok,
    }
}

/// The counter `key`, or zero.
pub open spec fn counter(t: Tree, key: Seq<char>) -> int {
    match t.int_of(key) {
        Some(n) => n as int,
        None => 0,
    }
}

/// `t` if it is an object, else an object without members.
pub open spec fn as_dict(t: Tree) -> Tree {
    if t is Dict {
        t
    } else {
        Tree::Dict(Map::empty())
    }
}

/// `t` with `n` added to the counter `key`.
pub open spec fn counted(t: Tree, key: Seq<char>, n: int) -> Tree {
    t.with(key, Tree::Int(counter(t, key) + n))
}

/// Counters with one more request.
pub open spec fn bumped(t: Tree, prompt: i64, completion: i64, credit: Tree, ok: bool) -> Tree {
    let a = counted(as_dict(t), "requests"@, 1);
    let b = if ok {
        a
    } else {
        counted(a, "errors"@, 1)
    };
    counted(
        counted(b, "promptTokens"@, prompt as int),
        "completionTokens"@,
        completion as int,
    ).with("credit"@, credit)
}

/// Whether a counter can take `n` more.
pub open spec fn room(t: Tree, key: Seq<char>, n: int) -> bool {
    i64::MIN <= counter(t, key) + n <= i64::MAX
}

/// Whether counters can take one more request.
pub open spec fn has_room(t: Tree, prompt: i64, completion: i64, ok: bool) -> bool {
    &&& room(t, "requests"@, 1)
    &&& ok || room(t, "errors"@, 1)
    &&& room(t, "promptTokens"@, prompt as int)
    &&& room(t, "completionTokens"@, completion as int)
}

/// The names of the counters differ from each other.
pub(crate) proof fn lemma_counter_names()
    ensures
        "requests"@ != "errors"@,
        "requests"@ != "promptTokens"@,
        "requests"@ != "completionTokens"@,
        "requests"@ != "credit"@,
        "errors"@ != "promptTokens"@,
        "errors"@ != "completionTokens"@,
        "errors"@ != "credit"@,
        "promptTokens"@ != "completionTokens"@,
        "promptTokens"@ != "credit"@,
        "completionTokens"@ != "credit"@,
        "nickname"@ != "requests"@,
        "nickname"@ != "errors"@,
        "nickname"@ != "promptTokens"@,
        "nickname"@ != "completionTokens"@,
        "nickname"@ != "credit"@,
{
    reveal_strlit("requests");
    reveal_strlit("errors");
    reveal_strlit("promptTokens");
    reveal_strlit("completionTokens");
    reveal_strlit("credit");
    reveal_strlit("nickname");
    assert("requests"@.len() == 8);
    assert("errors"@.len() == 6);
    assert("promptTokens"@.len() == 12);
    assert("completionTokens"@.len() == 16);
    assert("credit"@.len() == 6);
    assert("nickname"@.len() == 8);
    assert("requests"@[0] == 'r');
    assert("nickname"@[0] == 'n');
    assert("errors"@[0] == 'e');
    assert("credit"@[0] == 'c');
}

/// Adds `n` to the counter `key`.
fn count(obj: &mut Json, key: &str, n: i64)
    requires
        room(old(obj).tree(), key@, n as int),
    ensures
        final(obj).tree() == counted(old(obj).tree(), key@, n as int),
{
    let old_count: i64 = match obj.int_of(key) {
        Some(c) => c,
        None => 0,
    };
    obj.set(key, Json::integer(old_count + n));
}

/// Counters with one more request.
fn bump(obj: &Json, prompt: i64, completion: i64, credit: &Json, ok: bool) -> (r: Json)
    requires
        has_room(obj.tree(), prompt, completion, ok),
    ensures
        r.tree() == bumped(obj.tree(), prompt, completion, credit.tree(), ok),
{
    let mut o = if obj.is_dict() {
        obj.copy()
    } else {
        Json::dict()
    };
    proof {
        lemma_counter_names();
    }
    count(&mut o, "requests", 1);
    if !ok {
        count(&mut o, "errors", 1);
    }
    count(&mut o, "promptTokens", prompt);
    count(&mut o, "completionTokens", completion);
    o.set("credit", credit.copy());
    o
}

/// Whether a counter can take `n` more.
fn fits(obj: &Json, key: &str, n: i64) -> (r: bool)
    ensures
        r == room(obj.tree(), key@, n as int),
{
    let old_count: i64 = match obj.int_of(key) {
        Some(c) => c,
        None => 0,
    };
    old_count.checked_add(n).is_some()
}

/// Whether counters can take one more request.
fn all_fit(obj: &Json, prompt: i64, completion: i64, ok: bool) -> (r: bool)
    ensures
        r == has_room(obj.tree(), prompt, completion, ok),
{
    fits(obj, "requests", 1) && (ok || fits(obj, "errors", 1)) && fits(obj, "promptTokens", prompt)
        && fits(obj, "completionTokens", completion)
}

/// The counters of an account before its first request.
pub open spec fn new_account(nickname: Seq<char>) -> Tree {
    Tree::Dict(zero_counters().insert("nickname"@, Tree::Text(nickname)))
}

/// The counters under the name `name` of a group, or fresh ones.
pub open spec fn entry_of(group: Tree, name: Seq<char>, new: Tree) -> Tree {
    match group.get(name) {
        Some(t) => t,
        None => new,
    }
}

/// The counters of an account, under its present nickname.
pub open spec fn account_entry(group: Tree, uid: Seq<char>, nickname: Seq<char>) -> Tree {
    as_dict(entry_of(group, uid, new_account(nickname))).with("nickname"@, Tree::Text(nickname))
}

/// The counters of a model.
pub open spec fn model_entry(group: Tree, model: Seq<char>) -> Tree {
    entry_of(group, model, Tree::Dict(zero_counters()))
}

/// The member `key`, where a missing one counts as null.
pub open spec fn member(t: Tree, key: Seq<char>) -> Tree {
    match t.get(key) {
        Some(m) => m,
        None => Tree::Null,
    }
}

/// The record of one request.
pub open spec fn record_of(q: Request, spent: Tree, now_ms: i64) -> Tree {
    Tree::Dict(
        Map::<Seq<char>, Tree>::empty().insert("ts"@, Tree::Int(now_ms as int)).insert(
            "uid"@,
            Tree::Text(q.uid),
        ).insert("nickname"@, Tree::Text(q.nickname)).insert("model"@, Tree::Text(q.model)).insert(
            "stream"@,
            Tree::Bool(q.stream),
        ).insert("ok"@, Tree::Bool(q.ok)).insert("promptTokens"@, Tree::Int(q.prompt as int)).insert(
            "completionTokens"@,
            Tree::Int(q.completion as int),
        ).insert("credit"@, spent),
    )
}

/// The group of accounts with one more request.
pub open spec fn accounts_with(group: Tree, q: Request, credit: Tree) -> Tree {
    if group is Dict {
        group.with(
            q.uid,
            bumped(account_entry(group, q.uid, q.nickname), q.prompt, q.completion, credit, q.ok),
        )
    } else {
        group
    }
}

/// The group of models with one more request.
pub open spec fn models_with(group: Tree, q: Request, credit: Tree) -> Tree {
    if group is Dict {
        group.with(
            q.model,
            bumped(model_entry(group, q.model), q.prompt, q.completion, credit, q.ok),
        )
    } else {
        group
    }
}

/// The latest requests with one more in front, and no more than are kept.
pub open spec fn recent_with(list: Tree, record: Tree) -> Tree {
    match list {
        Tree::List(a) => {
            let b = seq![record] + a;
            Tree::List(
                if b.len() > USAGE_RECENT_MAX {
                    b.take(USAGE_RECENT_MAX as int)
                } else {
                    b
                },
            )
        },
        _ => list,
    }
}

/// The statistics with one more request.
pub open spec fn recorded(
    doc: Tree,
    q: Request,
    spent: Tree,
    total: Tree,
    account: Tree,
    model: Tree,
    now_ms: i64,
) -> Tree {
    doc.with(
        "total"@,
        bumped(member(doc, "total"@), q.prompt, q.completion, total, q.ok),
    ).with("byAccount"@, accounts_with(member(doc, "byAccount"@), q, account)).with(
        "byModel"@,
        models_with(member(doc, "byModel"@), q, model),
    ).with(
        "recent"@,
        recent_with(member(doc, "recent"@), record_of(q, spent, now_ms)),
    ).with("updatedAt"@, Tree::Int(now_ms as int))
}

/// Whether a request can be recorded: the statistics are an object, the entry of
/// the account is one or null if it is there, and no counter overflows.
pub open spec fn recordable(doc: Tree, q: Request) -> bool {
    let accounts = member(doc, "byAccount"@);
    let models = member(doc, "byModel"@);
    &&& doc is Dict
    &&& has_room(member(doc, "total"@), q.prompt, q.completion, q.ok)
    &&& accounts is Dict ==> {
        &&& accounts.get(q.uid) matches Some(e) ==> e is Dict || e is Null
        &&& has_room(account_entry(accounts, q.uid, q.nickname), q.prompt, q.completion, q.ok)
    }
    &&& models is Dict ==> has_room(model_entry(models, q.model), q.prompt, q.completion, q.ok)
}

/// The member `key`, where a missing one counts as null.
fn member_of(t: &Json, key: &str) -> (r: Json)
    ensures
        r.tree() == member(t.tree(), key@),
{
    match t.get(key) {
        Some(m) => m.copy(),
        None => Json::Null,
    }
}

/// The counters of an account, under its present nickname.
fn account_counters(group: &Json, meta: &UsageMeta) -> (r: Json)
    ensures
        r.tree() == account_entry(group.tree(), meta.uid@, meta.nickname@),
{
    let mut e = match group.get(meta.uid.as_str()) {
        Some(t) => if t.is_dict() {
            t.copy()
        } else {
            Json::dict()
        },
        None => {
            let mut n = counters();
            n.set("nickname", Json::text(meta.nickname.as_str()));
            n
        },
    };
    e.set("nickname", Json::text(meta.nickname.as_str()));
    e
}

/// The counters of a model.
fn model_counters(group: &Json, meta: &UsageMeta) -> (r: Json)
    ensures
        r.tree() == model_entry(group.tree(), meta.model@),
{
    match group.get(meta.model.as_str()) {
        Some(t) => t.copy(),
        None => counters(),
    }
}

/// Whether a request can be recorded.
pub fn can_record(doc: &Json, meta: &UsageMeta, usage: Option<&Json>, ok: bool) -> (r: bool)
    ensures
        r == recordable(doc.tree(), request(*meta, opt_tree(usage), ok)),
{
    let prompt = usage_num(usage, "prompt_tokens");
    let completion = usage_num(usage, "completion_tokens");
    if !doc.is_dict() {
        return false;
    }
    let total = member_of(doc, "total");
    if !all_fit(&total, prompt, completion, ok) {
        return false;
    }
    let accounts = member_of(doc, "byAccount");
    if accounts.is_dict() {
        let sane = match accounts.get(meta.uid.as_str()) {
            Some(e) => e.is_dict() || e.is_null(),
            None => true,
        };
        let e = account_counters(&accounts, meta);
        if !sane || !all_fit(&e, prompt, completion, ok) {
            return false;
        }
    }
    let models = member_of(doc, "byModel");
    if models.is_dict() {
        let e = model_counters(&models, meta);
        if !all_fit(&e, prompt, completion, ok) {
            return false;
        }
    }
    true
}

/// The latest requests with one more in front, and no more than are kept.
fn add_recent(list: &Json, record: Json) -> (r: Json)
    ensures
        r.tree() == recent_with(list.tree(), record.tree()),
{
    match list {
        Json::List(a) => {
            let mut b: Vec<Json> = Vec::new();
            b.push(record);
            let mut i: usize = 0;
            while i < a.len() && b.len() < USAGE_RECENT_MAX
                invariant
                    i <= a.len(),
                    b@.len() == i + 1,
                    b@.len() <= USAGE_RECENT_MAX,
                    b@[0].tree() == record.tree(),
                    forall|k: int| 1 <= k < b@.len() ==> (#[trigger] b@[k]).tree() == a@[k - 1].tree(),
                decreases a.len() - i,
            {
                b.push(a[i].copy());
                i = i + 1;
            }
            let r = Json::List(b);
            assert(r.tree()->List_0 =~= recent_with(list.tree(), record.tree())->List_0);
            r
        },
        _ => list.copy(),
    }
}

/// The record of one request.
fn request_record(
    meta: &UsageMeta,
    prompt: i64,
    completion: i64,
    ok: bool,
    spent: &Json,
    now_ms: i64,
) -> (r: Json)
    ensures
        r.tree() == record_of(
            (Request {
                uid: meta.uid@,
                nickname: meta.nickname@,
                model: meta.model@,
                stream: meta.stream,
                prompt,
                completion,
                ok,
            }),
            spent.tree(),
            now_ms,
        ),
{
    let mut d = Json::dict();
    d.set("ts", Json::integer(now_ms));
    d.set("uid", Json::text(meta.uid.as_str()));
    d.set("nickname", Json::text(meta.nickname.as_str()));
    d.set("model", Json::text(meta.model.as_str()));
    d.set("stream", Json::Bool(meta.stream));
    d.set("ok", Json::Bool(ok));
    d.set("promptTokens", Json::integer(prompt));
    d.set("completionTokens", Json::integer(completion));
    d.set("credit", spent.copy());
    d
}

/// Adds one request to the statistics, at the time `now_ms`.
pub fn record_usage(
    doc: Json,
    meta: &UsageMeta,
    usage: Option<&Json>,
    ok: bool,
    credits: &Credits,
    now_ms: i64,
) -> (r: Json)
    requires
        recordable(doc.tree(), request(*meta, opt_tree(usage), ok)),
    ensures
        r.tree() == recorded(
            doc.tree(),
            request(*meta, opt_tree(usage), ok),
            credits.spent.tree(),
            credits.total.tree(),
            credits.account.tree(),
            credits.model.tree(),
            now_ms,
        ),
{
    let prompt = usage_num(usage, "prompt_tokens");
    let completion = usage_num(usage, "completion_tokens");
    let total = bump(&member_of(&doc, "total"), prompt, completion, &credits.total, ok);
    let mut accounts = member_of(&doc, "byAccount");
    if accounts.is_dict() {
        let e = account_counters(&accounts, meta);
        let b = bump(&e, prompt, completion, &credits.account, ok);
        accounts.set(meta.uid.as_str(), b);
    }
    let mut models = member_of(&doc, "byModel");
    if models.is_dict() {
        let e = model_counters(&models, meta);
        let b = bump(&e, prompt, completion, &credits.model, ok);
        models.set(meta.model.as_str(), b);
    }
    let record = request_record(meta, prompt, completion, ok, &credits.spent, now_ms);
    let recent = add_recent(&member_of(&doc, "recent"), record);
    let mut r = doc;
    r.set("total", total);
    r.set("byAccount", accounts);
    r.set("byModel", models);
    r.set("recent", recent);
    r.set("updatedAt", Json::integer(now_ms));
    r
}

/// Whether a member is missing or an object.
pub open spec fn dict_or_none(t: Option<Tree>) -> bool {
    match t {
        Some(e) => e is Dict,
        None => true,
    }
}

/// Whether statistics have the shape that [`empty_usage`] gives them and
/// [`record_usage`] keeps.
pub open spec fn orderly(doc: Tree) -> bool {
    &&& doc is Dict
    &&& member(doc, "total"@) is Dict
    &&& member(doc, "byAccount"@) is Dict
    &&& forall|uid: Seq<char>| #[trigger] dict_or_none(member(doc, "byAccount"@).get(uid))
    &&& member(doc, "byModel"@) is Dict
    &&& forall|name: Seq<char>| #[trigger] dict_or_none(member(doc, "byModel"@).get(name))
    &&& member(doc, "recent"@) matches Tree::List(a) && a.len() <= USAGE_RECENT_MAX
}

/// The names of the parts of the statistics differ from each other.
pub(crate) proof fn lemma_part_names()
    ensures
        "total"@ != "byAccount"@,
        "total"@ != "byModel"@,
        "total"@ != "recent"@,
        "total"@ != "updatedAt"@,
        "byAccount"@ != "byModel"@,
        "byAccount"@ != "recent"@,
        "byAccount"@ != "updatedAt"@,
        "byModel"@ != "recent"@,
        "byModel"@ != "updatedAt"@,
        "recent"@ != "updatedAt"@,
{
    reveal_strlit("total");
    reveal_strlit("byAccount");
    reveal_strlit("byModel");
    reveal_strlit("recent");
    reveal_strlit("updatedAt");
    assert("total"@.len() == 5);
    assert("byAccount"@.len() == 9);
    assert("byModel"@.len() == 7);
    assert("recent"@.len() == 6);
    assert("updatedAt"@.len() == 9);
    assert("byAccount"@[0] == 'b');
    assert("updatedAt"@[0] == 'u');
}

/// Empty statistics are orderly, and any request can be recorded in them.
pub proof fn empty_usage_is_orderly(q: Request)
    ensures
        orderly(no_usage()),
        recordable(no_usage(), q),
{
    lemma_part_names();
    lemma_counter_names();
    let none = Tree::Dict(Map::<Seq<char>, Tree>::empty());
    let doc = no_usage();
    assert(member(doc, "total"@) == Tree::Dict(zero_counters()));
    assert(member(doc, "byAccount"@) == none);
    assert(member(doc, "byModel"@) == none);
    assert(member(doc, "recent"@) == Tree::List(Seq::<Tree>::empty()));
    let z = Tree::Dict(zero_counters());
    assert(counter(z, "requests"@) == 0);
    assert(counter(z, "errors"@) == 0);
    assert(counter(z, "promptTokens"@) == 0);
    assert(counter(z, "completionTokens"@) == 0);
    assert(none.get(q.uid) is None);
    assert(none.get(q.model) is None);
    let a = account_entry(none, q.uid, q.nickname);
    assert(counter(a, "requests"@) == 0);
    assert(counter(a, "errors"@) == 0);
    assert(counter(a, "promptTokens"@) == 0);
    assert(counter(a, "completionTokens"@) == 0);
}

/// What one more request does to counters.
pub open spec fn counts_one(
    before: Tree,
    after: Tree,
    prompt: i64,
    completion: i64,
    credit: Tree,
    ok: bool,
) -> bool {
    &&& counter(after, "requests"@) == counter(before, "requests"@) + 1
    &&& counter(after, "errors"@) == counter(before, "errors"@) + if ok {
        0int
    } else {
        1int
    }
    &&& counter(after, "promptTokens"@) == counter(before, "promptTokens"@) + prompt
    &&& counter(after, "completionTokens"@) == counter(before, "completionTokens"@) + completion
    &&& after.get("credit"@) == Some(credit)
}

/// Counters with one more request hold just that much more.
proof fn lemma_bumped(t: Tree, prompt: i64, completion: i64, credit: Tree, ok: bool)
    requires
        t is Dict,
        has_room(t, prompt, completion, ok),
    ensures
        bumped(t, prompt, completion, credit, ok) is Dict,
        counts_one(t, bumped(t, prompt, completion, credit, ok), prompt, completion, credit, ok),
{
    lemma_counter_names();
}

/// A recorded request counts once in the total, once for its account and once for
/// its model; the other accounts and models stay as they are; it comes first among
/// the latest requests; and the statistics stay orderly.
pub proof fn recording_counts_once(
    doc: Tree,
    q: Request,
    spent: Tree,
    total: Tree,
    account: Tree,
    model: Tree,
    now_ms: i64,
)
    requires
        orderly(doc),
        recordable(doc, q),
    ensures
        ({
            let r = recorded(doc, q, spent, total, account, model, now_ms);
            let accounts = member(doc, "byAccount"@);
            let models = member(doc, "byModel"@);
            &&& orderly(r)
            &&& counts_one(
                member(doc, "total"@),
                member(r, "total"@),
                q.prompt,
                q.completion,
                total,
                q.ok,
            )
            &&& counts_one(
                account_entry(accounts, q.uid, q.nickname),
                member(member(r, "byAccount"@), q.uid),
                q.prompt,
                q.completion,
                account,
                q.ok,
            )
            &&& counts_one(
                model_entry(models, q.model),
                member(member(r, "byModel"@), q.model),
                q.prompt,
                q.completion,
                model,
                q.ok,
            )
            &&& forall|uid: Seq<char>|
                uid != q.uid ==> #[trigger] member(r, "byAccount"@).get(uid) == accounts.get(uid)
            &&& forall|name: Seq<char>|
                name != q.model ==> #[trigger] member(r, "byModel"@).get(name) == models.get(name)
            &&& member(r, "recent"@).at(0) == Some(record_of(q, spent, now_ms))
            &&& forall|i: int|
                0 <= i < USAGE_RECENT_MAX - 1 ==> #[trigger] member(r, "recent"@).at(i + 1)
                    == member(doc, "recent"@).at(i)
        }),
{
    lemma_part_names();
    let r = recorded(doc, q, spent, total, account, model, now_ms);
    let accounts = member(doc, "byAccount"@);
    let models = member(doc, "byModel"@);
    let a = account_entry(accounts, q.uid, q.nickname);
    let m = model_entry(models, q.model);
    assert(dict_or_none(models.get(q.model)));
    lemma_bumped(member(doc, "total"@), q.prompt, q.completion, total, q.ok);
    lemma_bumped(a, q.prompt, q.completion, account, q.ok);
    lemma_bumped(m, q.prompt, q.completion, model, q.ok);
    assert(member(r, "total"@) == bumped(
        member(doc, "total"@),
        q.prompt,
        q.completion,
        total,
        q.ok,
    ));
    assert(member(r, "byAccount"@) == accounts_with(accounts, q, account));
    assert(member(r, "byModel"@) == models_with(models, q, model));
    let list = member(doc, "recent"@);
    assert(member(r, "recent"@) == recent_with(list, record_of(q, spent, now_ms)));
    assert forall|uid: Seq<char>| #[trigger]
        dict_or_none(member(r, "byAccount"@).get(uid)) by {
        if uid != q.uid {
            assert(dict_or_none(accounts.get(uid)));
        }
    }
    assert forall|name: Seq<char>| #[trigger]
        dict_or_none(member(r, "byModel"@).get(name)) by {
        if name != q.model {
            assert(dict_or_none(models.get(name)));
        }
    }
}

/// One request that is recorded, with its credits and its time.
pub struct Recording {
    pub q: Request,
    pub spent: Tree,
    pub total: Tree,
    pub account: Tree,
    pub model: Tree,
    pub now_ms: i64,
}

/// The statistics that requests are first recorded in: empty ones, or those that were
/// cleared at a time.
pub open spec fn at_first(cleared: Option<i64>) -> Tree {
    match cleared {
        Some(t) => no_usage().with("updatedAt"@, Tree::Int(t as int)),
        None => no_usage(),
    }
}

/// The statistics once the requests `rs` are recorded.
pub open spec fn recorded_all(cleared: Option<i64>, rs: Seq<Recording>) -> Tree
    decreases rs.len(),
{
    if rs.len() == 0 {
        at_first(cleared)
    } else {
        let r = rs.last();
        recorded(
            recorded_all(cleared, rs.drop_last()),
            r.q,
            r.spent,
            r.total,
            r.account,
            r.model,
            r.now_ms,
        )
    }
}

/// Whether each of the requests `rs` could be recorded when it was.
pub open spec fn all_recordable(cleared: Option<i64>, rs: Seq<Recording>) -> bool
    decreases rs.len(),
{
    rs.len() == 0 || (all_recordable(cleared, rs.drop_last()) && recordable(
        recorded_all(cleared, rs.drop_last()),
        rs.last().q,
    ))
}

/// Whether `key` names a counter that the library adds up.
pub open spec fn is_counter(key: Seq<char>) -> bool {
    key == "requests"@ || key == "errors"@ || key == "promptTokens"@ || key == "completionTokens"@
}

/// What one request adds to the counter `key`.
pub open spec fn share_of(q: Request, key: Seq<char>) -> int {
    if key == "requests"@ {
        1
    } else if key == "errors"@ {
        if q.ok {
            0
        } else {
            1
        }
    } else if key == "promptTokens"@ {
        q.prompt as int
    } else {
        q.completion as int
    }
}

/// What the requests `rs` add to the counter `key`.
pub open spec fn share_of_all(rs: Seq<Recording>, key: Seq<char>) -> int
    decreases rs.len(),
{
    if rs.len() == 0 {
        0
    } else {
        share_of_all(rs.drop_last(), key) + share_of(rs.last().q, key)
    }
}

/// How many of the requests `rs` failed.
pub open spec fn failures(rs: Seq<Recording>) -> nat
    decreases rs.len(),
{
    if rs.len() == 0 {
        0
    } else {
        failures(rs.drop_last()) + if rs.last().q.ok {
            0nat
        } else {
            1nat
        }
    }
}

/// The names in a group.
pub open spec fn names_in(group: Tree) -> Set<Seq<char>> {
    match group {
        Tree::Dict(m) => m.dom(),
        _ => Set::empty(),
    }
}

/// The counter `key` summed over the entries `names` of a group.
pub open spec fn sum_over(group: Tree, names: Seq<Seq<char>>, key: Seq<char>) -> int
    decreases names.len(),
{
    if names.len() == 0 {
        0
    } else {
        sum_over(group, names.drop_last(), key) + counter(member(group, names.last()), key)
    }
}

/// The counter `key` summed over all entries of a group.
pub open spec fn sum_in(group: Tree, key: Seq<char>) -> int {
    sum_over(group, names_in(group).to_seq(), key)
}

/// Whether `names` are the names in a group, each once.
spec fn lists(names: Seq<Seq<char>>, group: Tree) -> bool {
    &&& names.no_duplicates()
    &&& forall|x: Seq<char>| names.contains(x) <==> #[trigger] names_in(group).contains(x)
}

/// The elements of a finite set as a sequence: each once.
proof fn lemma_to_seq(s: Set<Seq<char>>)
    requires
        s.finite(),
    ensures
        s.to_seq().no_duplicates(),
        forall|x: Seq<char>| s.to_seq().contains(x) <==> #[trigger] s.contains(x),
    decreases s.len(),
{
    if s.len() == 0 {
        assert(s =~= Set::<Seq<char>>::empty());
        assert(s.to_seq() =~= Seq::<Seq<char>>::empty());
    } else {
        let x = s.choose();
        let rest = s.remove(x).to_seq();
        let all = s.to_seq();
        lemma_to_seq(s.remove(x));
        assert(all =~= seq![x] + rest);
        assert forall|y: Seq<char>| all.contains(y) <==> #[trigger] s.contains(y) by {
            if all.contains(y) {
                let i = choose|i: int| 0 <= i < all.len() && all[i] == y;
                if i > 0 {
                    assert(rest[i - 1] == y);
                    assert(rest.contains(y));
                    assert(s.remove(x).contains(y));
                }
            }
            if s.contains(y) {
                if y == x {
                    assert(all[0] == y);
                } else {
                    assert(s.remove(x).contains(y));
                    let i = choose|i: int| 0 <= i < rest.len() && rest[i] == y;
                    assert(all[i + 1] == y);
                }
            }
        }
        assert forall|i: int, j: int| 0 <= i < all.len() && 0 <= j < all.len() && i
            != j implies all[i] != all[j] by {
            assert(!s.remove(x).contains(x));
            assert(!rest.contains(x));
            if i > 0 {
                assert(rest[i - 1] == all[i]);
            }
            if j > 0 {
                assert(rest[j - 1] == all[j]);
            }
        }
    }
}

/// One entry taken out of a sum.
proof fn lemma_sum_without(group: Tree, names: Seq<Seq<char>>, key: Seq<char>, j: int)
    requires
        0 <= j < names.len(),
    ensures
        sum_over(group, names, key) == sum_over(group, names.remove(j), key) + counter(
            member(group, names[j]),
            key,
        ),
    decreases names.len(),
{
    let rest = names.remove(j);
    if j == names.len() - 1 {
        assert(rest =~= names.drop_last());
    } else {
        assert(names.drop_last().remove(j) =~= rest.drop_last());
        assert(rest.last() == names.last());
        lemma_sum_without(group, names.drop_last(), key, j);
    }
}

/// A sum over entries that are the same in two groups is the same.
proof fn lemma_sum_same(g: Tree, h: Tree, names: Seq<Seq<char>>, key: Seq<char>)
    requires
        forall|i: int| 0 <= i < names.len() ==> member(g, #[trigger] names[i]) == member(h, names[i]),
    ensures
        sum_over(g, names, key) == sum_over(h, names, key),
    decreases names.len(),
{
    if names.len() > 0 {
        let before = names.drop_last();
        assert forall|i: int| 0 <= i < before.len() implies member(g, #[trigger] before[i])
            == member(h, before[i]) by {
            assert(before[i] == names[i]);
        }
        lemma_sum_same(g, h, before, key);
        assert(names[names.len() - 1] == names.last());
    }
}

/// The names but for one.
proof fn lemma_lists_without(names: Seq<Seq<char>>, j: int, x: Seq<char>)
    requires
        names.no_duplicates(),
        0 <= j < names.len(),
    ensures
        names.remove(j).no_duplicates(),
        names.remove(j).contains(x) <==> names.contains(x) && x != names[j],
{
    let rest = names.remove(j);
    assert forall|a: int, b: int| 0 <= a < rest.len() && 0 <= b < rest.len() && a
        != b implies rest[a] != rest[b] by {
        let c = if a < j {
            a
        } else {
            a + 1
        };
        let d = if b < j {
            b
        } else {
            b + 1
        };
        assert(rest[a] == names[c] && rest[b] == names[d]);
    }
    if rest.contains(x) {
        let a = choose|a: int| 0 <= a < rest.len() && rest[a] == x;
        if a < j {
            assert(names[a] == x);
        } else {
            assert(names[a + 1] == x);
        }
    }
    if names.contains(x) && x != names[j] {
        let a = choose|a: int| 0 <= a < names.len() && names[a] == x;
        if a < j {
            assert(rest[a] == x);
        } else {
            assert(rest[a - 1] == x);
        }
    }
}

/// A group with a new value for one entry: its sum, given that the sum of the group
/// before is `s` however its names are listed.
proof fn lemma_sum_with(
    group: Tree,
    name: Seq<char>,
    new: Tree,
    key: Seq<char>,
    names: Seq<Seq<char>>,
    old_names: Seq<Seq<char>>,
    s: int,
)
    requires
        group is Dict,
        lists(names, group.with(name, new)),
        old_names == kept_names(group, name, names),
        sum_over(group, old_names, key) == s,
    ensures
        sum_over(group.with(name, new), names, key) == s + counter(new, key) - (match group.get(
            name,
        ) {
            Some(e) => counter(e, key),
            None => 0,
        }),
{
    let after = group.with(name, new);
    assert(names_in(after).contains(name));
    let j = choose|j: int| 0 <= j < names.len() && names[j] == name;
    let rest = names.remove(j);
    lemma_sum_without(after, names, key, j);
    assert forall|i: int| 0 <= i < rest.len() implies member(after, #[trigger] rest[i]) == member(
        group,
        rest[i],
    ) by {
        lemma_lists_without(names, j, rest[i]);
        assert(rest.contains(rest[i]));
    }
    lemma_sum_same(after, group, rest, key);
    if names_in(group).contains(name) {
        lemma_sum_without(group, names, key, j);
    } else {
        assert(names.index_of(name) == j);
    }
}

/// The names in a group before the entry `name` got a new value, listed as afterwards.
spec fn kept_names(group: Tree, name: Seq<char>, names: Seq<Seq<char>>) -> Seq<Seq<char>> {
    if names_in(group).contains(name) {
        names
    } else {
        names.remove(names.index_of(name))
    }
}

/// The names in a group before the entry `name` got a new value are listed.
proof fn lemma_kept_names(group: Tree, name: Seq<char>, new: Tree, names: Seq<Seq<char>>)
    requires
        group is Dict,
        lists(names, group.with(name, new)),
    ensures
        lists(kept_names(group, name, names), group),
{
    let after = group.with(name, new);
    assert(names_in(after).contains(name));
    let old_names = kept_names(group, name, names);
    assert forall|x: Seq<char>| old_names.contains(x) <==> #[trigger] names_in(group).contains(
        x,
    ) by {
        assert(names_in(after).contains(x) <==> x == name || names_in(group).contains(x));
        if !names_in(group).contains(name) {
            lemma_lists_without(names, names.index_of(name), x);
        }
    }
    if !names_in(group).contains(name) {
        lemma_lists_without(names, names.index_of(name), name);
    }
}

/// The parts of the statistics with one more request.
proof fn lemma_parts(doc: Tree, r: Recording)
    requires
        orderly(doc),
        recordable(doc, r.q),
    ensures
        ({
            let after = recorded(doc, r.q, r.spent, r.total, r.account, r.model, r.now_ms);
            let accounts = member(doc, "byAccount"@);
            let models = member(doc, "byModel"@);
            &&& orderly(after)
            &&& member(after, "byAccount"@) == accounts.with(
                r.q.uid,
                bumped(
                    account_entry(accounts, r.q.uid, r.q.nickname),
                    r.q.prompt,
                    r.q.completion,
                    r.account,
                    r.q.ok,
                ),
            )
            &&& member(after, "byModel"@) == models.with(
                r.q.model,
                bumped(
                    model_entry(models, r.q.model),
                    r.q.prompt,
                    r.q.completion,
                    r.model,
                    r.q.ok,
                ),
            )
        }),
{
    lemma_part_names();
    recording_counts_once(doc, r.q, r.spent, r.total, r.account, r.model, r.now_ms);
}

/// What one request adds to an entry of the accounts and to one of the models.
proof fn lemma_entries(doc: Tree, r: Recording, key: Seq<char>)
    requires
        orderly(doc),
        recordable(doc, r.q),
        is_counter(key),
    ensures
        ({
            let after = recorded(doc, r.q, r.spent, r.total, r.account, r.model, r.now_ms);
            let accounts = member(doc, "byAccount"@);
            let models = member(doc, "byModel"@);
            &&& counter(member(after, "total"@), key) == counter(member(doc, "total"@), key)
                + share_of(r.q, key)
            &&& counter(member(member(after, "byAccount"@), r.q.uid), key) == (match accounts.get(
                r.q.uid,
            ) {
                Some(e) => counter(e, key),
                None => 0,
            }) + share_of(r.q, key)
            &&& counter(member(member(after, "byModel"@), r.q.model), key) == (match models.get(
                r.q.model,
            ) {
                Some(e) => counter(e, key),
                None => 0,
            }) + share_of(r.q, key)
        }),
{
    lemma_counter_names();
    recording_counts_once(doc, r.q, r.spent, r.total, r.account, r.model, r.now_ms);
    let accounts = member(doc, "byAccount"@);
    let models = member(doc, "byModel"@);
    assert(dict_or_none(accounts.get(r.q.uid)));
    assert(dict_or_none(models.get(r.q.model)));
    let z = Tree::Dict(zero_counters());
    assert(counter(z, key) == 0);
    assert(counter(new_account(r.q.nickname), key) == 0);
    let a = account_entry(accounts, r.q.uid, r.q.nickname);
    assert(counter(a, key) == match accounts.get(r.q.uid) {
        Some(e) => counter(e, key),
        None => 0,
    });
}

/// Statistics that requests were recorded in are orderly, and have finitely many
/// accounts and models.
proof fn lemma_shape(cleared: Option<i64>, rs: Seq<Recording>)
    requires
        all_recordable(cleared, rs),
    ensures
        orderly(recorded_all(cleared, rs)),
        names_in(member(recorded_all(cleared, rs), "byAccount"@)).finite(),
        names_in(member(recorded_all(cleared, rs), "byModel"@)).finite(),
        rs.len() == 0 ==> {
            let doc = recorded_all(cleared, rs);
            let none = Tree::Dict(Map::<Seq<char>, Tree>::empty());
            &&& member(doc, "byAccount"@) == none
            &&& member(doc, "byModel"@) == none
            &&& member(doc, "total"@) == Tree::Dict(zero_counters())
        },
    decreases rs.len(),
{
    if rs.len() == 0 {
        lemma_part_names();
        let none = Tree::Dict(Map::<Seq<char>, Tree>::empty());
        let doc = at_first(cleared);
        assert(member(doc, "total"@) == Tree::Dict(zero_counters()));
        assert(member(doc, "byAccount"@) == none);
        assert(member(doc, "byModel"@) == none);
        assert(member(doc, "recent"@) == Tree::List(Seq::<Tree>::empty()));
    } else {
        lemma_shape(cleared, rs.drop_last());
        lemma_parts(recorded_all(cleared, rs.drop_last()), rs.last());
    }
}

/// The sums over the accounts and over the models, however they are listed, and the
/// total are what the requests add up to.
proof fn lemma_sums(
    cleared: Option<i64>,
    rs: Seq<Recording>,
    key: Seq<char>,
    accounts: Seq<Seq<char>>,
    models: Seq<Seq<char>>,
)
    requires
        all_recordable(cleared, rs),
        is_counter(key),
        lists(accounts, member(recorded_all(cleared, rs), "byAccount"@)),
        lists(models, member(recorded_all(cleared, rs), "byModel"@)),
    ensures
        ({
            let doc = recorded_all(cleared, rs);
            &&& counter(member(doc, "total"@), key) == share_of_all(rs, key)
            &&& sum_over(member(doc, "byAccount"@), accounts, key) == share_of_all(rs, key)
            &&& sum_over(member(doc, "byModel"@), models, key) == share_of_all(rs, key)
        }),
    decreases rs.len(),
{
    lemma_shape(cleared, rs);
    if rs.len() == 0 {
        lemma_counter_names();
        if accounts.len() > 0 {
            assert(accounts.contains(accounts[0]));
        }
        if models.len() > 0 {
            assert(models.contains(models[0]));
        }
        assert(counter(Tree::Dict(zero_counters()), key) == 0);
    } else {
        let before = rs.drop_last();
        let doc = recorded_all(cleared, before);
        let r = rs.last();
        lemma_shape(cleared, before);
        lemma_parts(doc, r);
        lemma_entries(doc, r, key);
        let a = member(doc, "byAccount"@);
        let m = member(doc, "byModel"@);
        let x = member(member(recorded_all(cleared, rs), "byAccount"@), r.q.uid);
        let y = member(member(recorded_all(cleared, rs), "byModel"@), r.q.model);
        assert(member(recorded_all(cleared, rs), "byAccount"@) == a.with(r.q.uid, x));
        assert(member(recorded_all(cleared, rs), "byModel"@) == m.with(r.q.model, y));
        lemma_kept_names(a, r.q.uid, x, accounts);
        lemma_kept_names(m, r.q.model, y, models);
        let old_accounts = kept_names(a, r.q.uid, accounts);
        let old_models = kept_names(m, r.q.model, models);
        lemma_sums(cleared, before, key, old_accounts, old_models);
        let s = share_of_all(before, key);
        lemma_sum_with(a, r.q.uid, x, key, accounts, old_accounts, s);
        lemma_sum_with(m, r.q.model, y, key, models, old_models, s);
    }
}

/// What the requests add to the number of requests and of failures.
proof fn lemma_share_of_all(rs: Seq<Recording>)
    ensures
        share_of_all(rs, "requests"@) == rs.len(),
        share_of_all(rs, "errors"@) == failures(rs),
    decreases rs.len(),
{
    lemma_counter_names();
    if rs.len() > 0 {
        lemma_share_of_all(rs.drop_last());
    }
}

/// Nothing is counted twice or left out: however many requests are recorded since the
/// statistics were empty, each counter of the total is what the requests add up to, and
/// so are its sum over the accounts and its sum over the models. In particular the total
/// counts every request, and every failure as an error.
pub proof fn sums_equal_the_total(cleared: Option<i64>, rs: Seq<Recording>, key: Seq<char>)
    requires
        all_recordable(cleared, rs),
        is_counter(key),
    ensures
        ({
            let doc = recorded_all(cleared, rs);
            let total = member(doc, "total"@);
            &&& orderly(doc)
            &&& counter(total, key) == share_of_all(rs, key)
            &&& sum_in(member(doc, "byAccount"@), key) == counter(total, key)
            &&& sum_in(member(doc, "byModel"@), key) == counter(total, key)
            &&& counter(total, "requests"@) == rs.len()
            &&& counter(total, "errors"@) == failures(rs)
        }),
{
    let doc = recorded_all(cleared, rs);
    lemma_shape(cleared, rs);
    lemma_share_of_all(rs);
    let accounts = names_in(member(doc, "byAccount"@)).to_seq();
    let models = names_in(member(doc, "byModel"@)).to_seq();
    lemma_to_seq(names_in(member(doc, "byAccount"@)));
    lemma_to_seq(names_in(member(doc, "byModel"@)));
    lemma_sums(cleared, rs, key, accounts, models);
    lemma_sums(cleared, rs, "requests"@, accounts, models);
    lemma_sums(cleared, rs, "errors"@, accounts, models);
}

} // verus!
