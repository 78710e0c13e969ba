//! What the statistics count of a request, and where usage is read from.

use vstd::prelude::*;

use crate::json::{json_parse, Tree};
use crate::text::{has_prefix, Class};
use crate::text_laws::{all_in, both_edges_are_taken};
use super::usage::{
    account_entry, block_of, bumped, cleared, last_usage, lemma_counter_names,
    lemma_part_names, line_document, line_payload, line_usage, member, model_entry, no_usage,
    number_at, record_of, recordable, recorded, request, stored_usage, Request, UsageMeta,
};

verus! {

/// The integer of the member `key`, or zero where there is none.
pub open spec fn amount(t: Tree, key: Seq<char>) -> int {
    match t.get(key) {
        Some(Tree::Int(n)) => if i64::MIN <= n <= i64::MAX {
            n
        } else {
            0
        },
        _ => 0,
    }
}

/// The integer `key` of a usage block, or zero where there is no block or no integer.
pub open spec fn told_amount(usage: Option<Tree>, key: Seq<char>) -> int {
    match usage {
        Some(u) => amount(u, key),
        None => 0,
    }
}

/// What is counted for a request is what its usage block says, zero where it says nothing,
/// and whom it is counted for is what its meta data says; whether it was a stream and whether
/// it went well changes nothing of that.
pub proof fn request_counts_what_usage_says(meta: UsageMeta, usage: Option<Tree>, ok: bool)
    ensures
        request(meta, usage, ok).prompt == told_amount(usage, "prompt_tokens"@),
        request(meta, usage, ok).completion == told_amount(usage, "completion_tokens"@),
        request(meta, usage, ok).uid == meta.uid@,
        request(meta, usage, ok).nickname == meta.nickname@,
        request(meta, usage, ok).model == meta.model@,
        request(meta, usage, ok).stream == meta.stream,
        request(meta, usage, ok).ok == ok,
{
}

/// Whether `after` are the counters `before` with one more request that took `prompt` and
/// `completion` tokens, and with the credit given; all else stays.
pub open spec fn one_more(
    before: Tree,
    after: Tree,
    prompt: int,
    completion: int,
    credit: Tree,
    ok: bool,
) -> bool {
    &&& after.get("requests"@) == Some(Tree::Int(amount(before, "requests"@) + 1))
    &&& ok ==> after.get("errors"@) == before.get("errors"@)
    &&& !ok ==> after.get("errors"@) == Some(Tree::Int(amount(before, "errors"@) + 1))
    &&& after.get("promptTokens"@) == Some(Tree::Int(amount(before, "promptTokens"@) + prompt))
    &&& after.get("completionTokens"@) == Some(
        Tree::Int(amount(before, "completionTokens"@) + completion),
    )
    &&& after.get("credit"@) == Some(credit)
    &&& forall|k: Seq<char>|
        k != "requests"@ && k != "errors"@ && k != "promptTokens"@ && k != "completionTokens"@ && k
            != "credit"@ ==> #[trigger] after.get(k) == before.get(k)
}

/// Counters with one more request.
proof fn lemma_one_more(t: Tree, prompt: i64, completion: i64, credit: Tree, ok: bool)
    requires
        t is Dict,
    ensures
        one_more(
            t,
            bumped(t, prompt, completion, credit, ok),
            prompt as int,
            completion as int,
            credit,
            ok,
        ),
{
    lemma_counter_names();
}

/// The total grows by one request and by exactly the tokens that the usage block of the
/// request tells, stream or not, and by an error if the request went wrong.
pub proof fn total_grows_by_what_usage_says(
    doc: Tree,
    total: Map<Seq<char>, Tree>,
    meta: UsageMeta,
    usage: Option<Tree>,
    ok: bool,
    credits: (Tree, Tree, Tree, Tree),
    now_ms: i64,
)
    requires
        doc is Dict,
        doc.get("total"@) == Some(Tree::Dict(total)),
    ensures
        recorded(
            doc,
            request(meta, usage, ok),
            credits.0,
            credits.1,
            credits.2,
            credits.3,
            now_ms,
        ).get("total"@) matches Some(after) && one_more(
            Tree::Dict(total),
            after,
            told_amount(usage, "prompt_tokens"@),
            told_amount(usage, "completion_tokens"@),
            credits.1,
            ok,
        ),
{
    lemma_part_names();
    let q = request(meta, usage, ok);
    lemma_one_more(Tree::Dict(total), q.prompt, q.completion, credits.1, ok);
}

/// The counters of the account of a request grow alike, from zero if it had none, and have
/// its present name; those of the other accounts stay.
pub proof fn account_grows_by_what_usage_says(
    doc: Tree,
    group: Map<Seq<char>, Tree>,
    meta: UsageMeta,
    usage: Option<Tree>,
    ok: bool,
    credits: (Tree, Tree, Tree, Tree),
    now_ms: i64,
    other: Seq<char>,
)
    requires
        doc is Dict,
        doc.get("byAccount"@) == Some(Tree::Dict(group)),
        group.dom().contains(meta.uid@) ==> group[meta.uid@] is Dict,
    ensures
        ({
            let r = recorded(
                doc,
                request(meta, usage, ok),
                credits.0,
                credits.1,
                credits.2,
                credits.3,
                now_ms,
            );
            let prompt = told_amount(usage, "prompt_tokens"@);
            let completion = told_amount(usage, "completion_tokens"@);
            r.get("byAccount"@) matches Some(g) && (other != meta.uid@ ==> g.get(other)
                == Tree::Dict(group).get(other)) && (g.get(meta.uid@) matches Some(after)
                && after.get("nickname"@) == Some(Tree::Text(meta.nickname@)) && after.get(
                "credit"@,
            ) == Some(credits.2) && if group.dom().contains(meta.uid@) {
                let before = group[meta.uid@];
                &&& after.get("requests"@) == Some(Tree::Int(amount(before, "requests"@) + 1))
                &&& after.get("promptTokens"@) == Some(
                    Tree::Int(amount(before, "promptTokens"@) + prompt),
                )
                &&& after.get("completionTokens"@) == Some(
                    Tree::Int(amount(before, "completionTokens"@) + completion),
                )
                &&& ok ==> after.get("errors"@) == before.get("errors"@)
                &&& !ok ==> after.get("errors"@) == Some(Tree::Int(amount(before, "errors"@) + 1))
            } else {
                &&& after.get("requests"@) == Some(Tree::Int(1))
                &&& after.get("promptTokens"@) == Some(Tree::Int(prompt))
                &&& after.get("completionTokens"@) == Some(Tree::Int(completion))
                &&& after.get("errors"@) == Some(
                    Tree::Int(
                        if ok {
                            0
                        } else {
                            1
                        },
                    ),
                )
            })
        }),
{
    lemma_part_names();
    lemma_counter_names();
    let q = request(meta, usage, ok);
    let e = account_entry(Tree::Dict(group), q.uid, q.nickname);
    assert(e is Dict);
    lemma_one_more(e, q.prompt, q.completion, credits.2, ok);
    let after = bumped(e, q.prompt, q.completion, credits.2, ok);
    assert(after.get("nickname"@) == e.get("nickname"@));
    if !group.dom().contains(meta.uid@) {
        assert(amount(e, "requests"@) == 0);
        assert(amount(e, "promptTokens"@) == 0);
        assert(amount(e, "completionTokens"@) == 0);
        assert(e.get("errors"@) == Some(Tree::Int(0)));
    }
}

/// The counters of the model of a request grow alike, from zero if it had none; those of the
/// other models stay.
pub proof fn model_grows_by_what_usage_says(
    doc: Tree,
    group: Map<Seq<char>, Tree>,
    meta: UsageMeta,
    usage: Option<Tree>,
    ok: bool,
    credits: (Tree, Tree, Tree, Tree),
    now_ms: i64,
    other: Seq<char>,
)
    requires
        doc is Dict,
        doc.get("byModel"@) == Some(Tree::Dict(group)),
        group.dom().contains(meta.model@) ==> group[meta.model@] is Dict,
    ensures
        ({
            let r = recorded(
                doc,
                request(meta, usage, ok),
                credits.0,
                credits.1,
                credits.2,
                credits.3,
                now_ms,
            );
            let prompt = told_amount(usage, "prompt_tokens"@);
            let completion = told_amount(usage, "completion_tokens"@);
            r.get("byModel"@) matches Some(g) && (other != meta.model@ ==> g.get(other)
                == Tree::Dict(group).get(other)) && (g.get(meta.model@) matches Some(after)
                && after.get("credit"@) == Some(credits.3) && if group.dom().contains(
                meta.model@,
            ) {
                one_more(group[meta.model@], after, prompt, completion, credits.3, ok)
            } else {
                &&& after.get("requests"@) == Some(Tree::Int(1))
                &&& after.get("promptTokens"@) == Some(Tree::Int(prompt))
                &&& after.get("completionTokens"@) == Some(Tree::Int(completion))
                &&& after.get("errors"@) == Some(
                    Tree::Int(
                        if ok {
                            0
                        } else {
                            1
                        },
                    ),
                )
            })
        }),
{
    lemma_part_names();
    lemma_counter_names();
    let q = request(meta, usage, ok);
    let e = model_entry(Tree::Dict(group), q.model);
    assert(e is Dict);
    lemma_one_more(e, q.prompt, q.completion, credits.3, ok);
    if !group.dom().contains(meta.model@) {
        assert(amount(e, "requests"@) == 0);
        assert(amount(e, "promptTokens"@) == 0);
        assert(amount(e, "completionTokens"@) == 0);
        assert(e.get("errors"@) == Some(Tree::Int(0)));
    }
}

/// The names of members of a record differ from each other.
proof fn lemma_record_names()
    ensures
        "ts"@ != "uid"@,
        "ts"@ != "nickname"@,
        "ts"@ != "model"@,
        "ts"@ != "stream"@,
        "ts"@ != "ok"@,
        "ts"@ != "promptTokens"@,
        "ts"@ != "completionTokens"@,
        "ts"@ != "credit"@,
        "uid"@ != "nickname"@,
        "uid"@ != "model"@,
        "uid"@ != "stream"@,
        "uid"@ != "ok"@,
        "uid"@ != "promptTokens"@,
        "uid"@ != "completionTokens"@,
        "uid"@ != "credit"@,
        "nickname"@ != "model"@,
        "nickname"@ != "stream"@,
        "nickname"@ != "ok"@,
        "model"@ != "stream"@,
        "model"@ != "ok"@,
        "model"@ != "promptTokens"@,
        "model"@ != "completionTokens"@,
        "model"@ != "credit"@,
        "stream"@ != "ok"@,
        "stream"@ != "promptTokens"@,
        "stream"@ != "completionTokens"@,
        "stream"@ != "credit"@,
        "ok"@ != "promptTokens"@,
        "ok"@ != "completionTokens"@,
        "ok"@ != "credit"@,
{
    reveal_strlit("ts");
    reveal_strlit("uid");
    reveal_strlit("nickname");
    reveal_strlit("model");
    reveal_strlit("stream");
    reveal_strlit("ok");
    reveal_strlit("promptTokens");
    reveal_strlit("completionTokens");
    reveal_strlit("credit");
    assert("ts"@.len() == 2);
    assert("ok"@.len() == 2);
    assert("ts"@[0] == 't');
    assert("ok"@[0] == 'o');
    assert("uid"@.len() == 3);
    assert("nickname"@.len() == 8);
    assert("model"@.len() == 5);
    assert("stream"@.len() == 6);
    assert("credit"@.len() == 6);
    assert("stream"@[0] == 's');
    assert("credit"@[0] == 'c');
    assert("promptTokens"@.len() == 12);
    assert("completionTokens"@.len() == 16);
}

/// A request comes first among the latest, with what it was and what its usage block told;
/// the others follow in order, and only the hundred latest are kept. The statistics have the
/// time of the request, and their other members stay.
pub proof fn latest_request_comes_first(
    doc: Tree,
    list: Seq<Tree>,
    meta: UsageMeta,
    usage: Option<Tree>,
    ok: bool,
    credits: (Tree, Tree, Tree, Tree),
    now_ms: i64,
    i: int,
    k: Seq<char>,
)
    requires
        doc is Dict,
        doc.get("recent"@) == Some(Tree::List(list)),
    ensures
        ({
            let r = recorded(
                doc,
                request(meta, usage, ok),
                credits.0,
                credits.1,
                credits.2,
                credits.3,
                now_ms,
            );
            &&& r.get("updatedAt"@) == Some(Tree::Int(now_ms as int))
            &&& k != "total"@ && k != "byAccount"@ && k != "byModel"@ && k != "recent"@ && k
                != "updatedAt"@ ==> r.get(k) == doc.get(k)
            &&& r.get("recent"@) matches Some(Tree::List(a)) && a.len() == (if list.len() < 100 {
                list.len() + 1
            } else {
                100
            }) && (0 < i < a.len() ==> a[i] == list[i - 1]) && a[0].get("ts"@) == Some(
                Tree::Int(now_ms as int),
            ) && a[0].get("uid"@) == Some(Tree::Text(meta.uid@)) && a[0].get("nickname"@) == Some(
                Tree::Text(meta.nickname@),
            ) && a[0].get("model"@) == Some(Tree::Text(meta.model@)) && a[0].get("stream"@) == Some(
                Tree::Bool(meta.stream),
            ) && a[0].get("ok"@) == Some(Tree::Bool(ok)) && a[0].get("promptTokens"@) == Some(
                Tree::Int(told_amount(usage, "prompt_tokens"@)),
            ) && a[0].get("completionTokens"@) == Some(
                Tree::Int(told_amount(usage, "completion_tokens"@)),
            ) && a[0].get("credit"@) == Some(credits.0)
        }),
{
    lemma_part_names();
    lemma_record_names();
    lemma_counter_names();
    let q = request(meta, usage, ok);
    let rec = record_of(q, credits.0, now_ms);
    let b = seq![rec] + list;
    assert(b[0] == rec);
    if 0 < i < b.len() {
        assert(b[i] == list[i - 1]);
    }
}

/// Statistics whose counters are not near their limits take every request of an ordinary
/// size.
pub proof fn ordinary_requests_can_be_recorded(doc: Tree, q: Request, limit: int)
    requires
        doc is Dict,
        0 <= limit <= 0x3fff_ffff_ffff_ffff,
        -limit <= q.prompt <= limit,
        -limit <= q.completion <= limit,
        member(doc, "byAccount"@).get(q.uid) matches Some(e) ==> e is Dict || e is Null,
        forall|k: Seq<char>| 0 <= #[trigger] amount(member(doc, "total"@), k) <= limit,
        forall|k: Seq<char>|
            0 <= #[trigger] amount(member(member(doc, "byAccount"@), q.uid), k) <= limit,
        forall|k: Seq<char>|
            0 <= #[trigger] amount(member(member(doc, "byModel"@), q.model), k) <= limit,
    ensures
        recordable(doc, q),
{
    lemma_counter_names();
    lemma_part_names();
    let t = member(doc, "total"@);
    assert(0 <= amount(t, "requests"@) <= limit);
    assert(0 <= amount(t, "errors"@) <= limit);
    assert(0 <= amount(t, "promptTokens"@) <= limit);
    assert(0 <= amount(t, "completionTokens"@) <= limit);
    let a = member(member(doc, "byAccount"@), q.uid);
    assert(0 <= amount(a, "requests"@) <= limit);
    assert(0 <= amount(a, "errors"@) <= limit);
    assert(0 <= amount(a, "promptTokens"@) <= limit);
    assert(0 <= amount(a, "completionTokens"@) <= limit);
    let m = member(member(doc, "byModel"@), q.model);
    assert(0 <= amount(m, "requests"@) <= limit);
    assert(0 <= amount(m, "errors"@) <= limit);
    assert(0 <= amount(m, "promptTokens"@) <= limit);
    assert(0 <= amount(m, "completionTokens"@) <= limit);
}

/// Statistics before the first request have all counts at zero, no accounts, no models and
/// no latest requests; a stored document counts if it has a total.
pub proof fn statistics_begin_at_zero(doc: Option<Tree>, k: Seq<char>)
    ensures
        k == "requests"@ || k == "errors"@ || k == "promptTokens"@ || k == "completionTokens"@ || k
            == "credit"@ ==> (no_usage().get("total"@) matches Some(t) && t.get(k) == Some(
            Tree::Int(0),
        )),
        no_usage().get("byAccount"@) == Some(Tree::Dict(Map::empty())),
        no_usage().get("byModel"@) == Some(Tree::Dict(Map::empty())),
        no_usage().get("recent"@) == Some(Tree::List(Seq::empty())),
        no_usage().get("updatedAt"@) == Some(Tree::Int(0)),
        doc is None ==> stored_usage(doc) == no_usage(),
        doc matches Some(d) ==> (d.get("total"@) is Some ==> stored_usage(doc) == d) && (d.get(
            "total"@,
        ) is None ==> stored_usage(doc) == no_usage()),
{
    lemma_part_names();
    lemma_counter_names();
}

/// The usage of a document is its member of that name, unless it is `null`; the credit of a
/// block is its member of that name, if it is a number.
pub proof fn usage_is_a_member(v: Tree, u: Option<Tree>)
    ensures
        match v.get("usage"@) {
            Some(Tree::Null) => block_of(v) is None,
            Some(b) => block_of(v) == Some(b),
            None => block_of(v) is None,
        },
        match u {
            Some(b) => match b.get("credit"@) {
                Some(Tree::Int(n)) => number_at(u, "credit"@) == Some(Tree::Int(n)),
                Some(c) => number_at(u, "credit"@) == if c is Real {
                    Some(c)
                } else {
                    None
                },
                None => number_at(u, "credit"@) is None,
            },
            None => number_at(u, "credit"@) is None,
        },
{
}

/// A line of a stream holds what stands after `data:`, without white space around it, unless
/// that is nothing or closes the stream; a line that begins otherwise holds nothing.
pub proof fn data_lines_hold_documents(w: Seq<char>, x: Seq<char>, v: Seq<char>, line: Seq<char>)
    requires
        all_in(w, Class::White),
        all_in(v, Class::White),
        x.len() > 0 ==> !Class::White.holds(x[0]) && !Class::White.holds(x.last()),
        !has_prefix(line, "data:"@),
    ensures
        ({
            let l = "data:"@ + (w + x + v);
            &&& x.len() > 0 && x != "[DONE]"@ ==> line_payload(l) == Some(x) && line_document(l)
                == json_parse(x)
            &&& x.len() == 0 || x == "[DONE]"@ ==> line_payload(l) is None && line_document(
                l,
            ) is None
        }),
        line_payload(line) is None,
        line_document(line) is None,
{
    reveal_strlit("data:");
    let l = "data:"@ + (w + x + v);
    assert("data:"@.len() == 5);
    assert(l.subrange(0, 5) =~= "data:"@);
    assert(l.skip(5) =~= w + x + v);
    both_edges_are_taken(w, x, v, Class::White);
}

/// The usage of a stream is that of the last line that has one; without any there is none.
pub proof fn last_usage_counts(ls: Seq<Seq<char>>, i: int)
    requires
        -1 <= i < ls.len(),
        i >= 0 ==> line_usage(ls[i]) is Some,
        forall|j: int| i < j < ls.len() ==> line_usage(#[trigger] ls[j]) is None,
    ensures
        i >= 0 ==> last_usage(ls) == line_usage(ls[i]),
        i < 0 ==> last_usage(ls) is None,
    decreases ls.len(),
{
    if ls.len() > 0 {
        let before = ls.drop_last();
        assert(ls.last() == ls[ls.len() - 1]);
        if i < before.len() {
            if i >= 0 {
                assert(before[i] == ls[i]);
            }
            assert forall|j: int| i < j < before.len() implies line_usage(
                #[trigger] before[j],
            ) is None by {
                assert(before[j] == ls[j]);
            }
            last_usage_counts(before, i);
        }
    }
}

/// Statistics that were cleared are those before the first request but for the time.
pub proof fn cleared_statistics_begin_again(now_ms: i64, k: Seq<char>)
    ensures
        cleared(now_ms).get("updatedAt"@) == Some(Tree::Int(now_ms as int)),
        k != "updatedAt"@ ==> cleared(now_ms).get(k) == no_usage().get(k),
{
}

/// Where the statistics have no total, it is counted from zero; groups that are no objects and
/// latest requests that are no list stay as they are.
pub proof fn missing_parts_are_made_up_for(
    doc: Tree,
    meta: UsageMeta,
    usage: Option<Tree>,
    ok: bool,
    credits: (Tree, Tree, Tree, Tree),
    now_ms: i64,
)
    requires
        doc is Dict,
    ensures
        ({
            let r = recorded(
                doc,
                request(meta, usage, ok),
                credits.0,
                credits.1,
                credits.2,
                credits.3,
                now_ms,
            );
            &&& !(doc.get("total"@) matches Some(Tree::Dict(_))) ==> (r.get("total"@) matches Some(t)
                && t.get("requests"@) == Some(Tree::Int(1)) && t.get("promptTokens"@) == Some(
                Tree::Int(told_amount(usage, "prompt_tokens"@)),
            ) && t.get("completionTokens"@) == Some(
                Tree::Int(told_amount(usage, "completion_tokens"@)),
            ) && t.get("credit"@) == Some(credits.1) && (!ok ==> t.get("errors"@) == Some(
                Tree::Int(1),
            )))
            &&& doc.get("byAccount"@) matches Some(g) ==> !(g is Dict) ==> r.get("byAccount"@)
                == Some(g)
            &&& doc.get("byModel"@) matches Some(g) ==> !(g is Dict) ==> r.get("byModel"@) == Some(g)
            &&& doc.get("recent"@) matches Some(a) ==> !(a is List) ==> r.get("recent"@) == Some(a)
        }),
{
    lemma_part_names();
    lemma_counter_names();
    let q = request(meta, usage, ok);
    let none = Tree::Dict(Map::<Seq<char>, Tree>::empty());
    lemma_one_more(none, q.prompt, q.completion, credits.1, ok);
}

} // verus!
