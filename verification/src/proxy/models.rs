//! The list of models that the gateway offers.

use vstd::prelude::*;

use crate::json::{trees, Json, Tree};
use crate::text::{listed, opt_str, texts};
use super::config::{admitted, check_auth, ProxyConfig};
use super::reply::{document_reply, error_of, error_reply, text_reply, unauthorized, Reply};

verus! {

/// `ids` with `id` at the end, unless it is empty or there already.
pub open spec fn with_id(ids: Seq<Seq<char>>, id: Seq<char>) -> Seq<Seq<char>> {
    if id.len() == 0 || ids.contains(id) {
        ids
    } else {
        ids.push(id)
    }
}

/// `ids` with each of `more` at the end, unless it is empty or there already.
pub open spec fn with_ids(ids: Seq<Seq<char>>, more: Seq<Seq<char>>) -> Seq<Seq<char>>
    decreases more.len(),
{
    if more.len() == 0 {
        ids
    } else {
        with_id(with_ids(ids, more.drop_last()), more.last())
    }
}

/// Adds `id` to `ids`, unless it is empty or there already.
pub fn push_unique(ids: &mut Vec<String>, id: &str)
    ensures
        texts(final(ids)@) == with_id(texts(old(ids)@), id@),
{
    let ghost all = texts(ids@);
    if id.is_empty() || listed(ids, id) {
        return ;
    }
    ids.push(id.to_owned());
    assert(texts(ids@) =~= all.push(id@));
}

/// The texts among documents.
pub open spec fn texts_among(ts: Seq<Tree>) -> Seq<Seq<char>>
    decreases ts.len(),
{
    if ts.len() == 0 {
        Seq::empty()
    } else {
        match ts.last() {
            Tree::Text(s) => texts_among(ts.drop_last()).push(s),
            _ => texts_among(ts.drop_last()),
        }
    }
}

/// The models of one agent.
pub open spec fn models_of(agent: Tree) -> Seq<Seq<char>> {
    match agent.get("models"@) {
        Some(Tree::List(ms)) => texts_among(ms),
        _ => Seq::empty(),
    }
}

/// The models of agents, agent by agent.
pub open spec fn models_of_all(agents: Seq<Tree>) -> Seq<Seq<char>>
    decreases agents.len(),
{
    if agents.len() == 0 {
        Seq::empty()
    } else {
        models_of_all(agents.drop_last()) + models_of(agents.last())
    }
}

/// The models under `data.agents` of an answer from upstream.
pub open spec fn agent_models(v: Tree) -> Seq<Seq<char>> {
    match v.get("data"@) {
        Some(d) => match d.get("agents"@) {
            Some(Tree::List(a)) => models_of_all(a),
            _ => Seq::empty(),
        },
        None => Seq::empty(),
    }
}

/// The name of one listed model: the text of its `id`, of its `name` if it has no
/// `id`, or the empty text.
pub open spec fn item_name(m: Tree) -> Seq<char> {
    match m.get("id"@) {
        Some(Tree::Text(s)) => s,
        Some(_) => Seq::empty(),
        None => m.text_or_empty("name"@),
    }
}

/// The items that an answer from upstream lists: those under `data`, or the answer
/// itself.
pub open spec fn items(v: Tree) -> Seq<Tree> {
    match v.get("data"@) {
        Some(Tree::List(a)) => a,
        _ => match v {
            Tree::List(a) => a,
            _ => Seq::empty(),
        },
    }
}

/// The models that are offered when upstream names none.
pub open spec fn known_models() -> Seq<Seq<char>> {
    seq![
        "auto"@,
        "hy4-preview"@,
        "deepseek-v4-pro"@,
        "deepseek-v4.1-flash"@,
        "glm-5.3"@,
        "kimi-k3-1"@,
        "minimax-m3"@,
    ]
}

/// The models that an answer from upstream stands for: those of its agents, else
/// those that it lists, else the known ones; each once, in order.
pub open spec fn offered(v: Tree) -> Seq<Seq<char>> {
    let none = Seq::<Seq<char>>::empty();
    let a = with_ids(none, agent_models(v));
    if a.len() > 0 {
        a
    } else {
        let b = with_ids(none, items(v).map_values(|m: Tree| item_name(m)));
        if b.len() > 0 {
            b
        } else {
            known_models()
        }
    }
}

/// Adding one after the other.
proof fn lemma_with_ids_append(ids: Seq<Seq<char>>, a: Seq<Seq<char>>, b: Seq<Seq<char>>)
    ensures
        with_ids(ids, a + b) == with_ids(with_ids(ids, a), b),
    decreases b.len(),
{
    if b.len() == 0 {
        assert(a + b =~= a);
    } else {
        assert((a + b).drop_last() =~= a + b.drop_last());
        assert((a + b).last() == b.last());
        lemma_with_ids_append(ids, a, b.drop_last());
    }
}

/// Adds the models of one agent.
fn push_models(ids: &mut Vec<String>, agent: &Json)
    ensures
        texts(final(ids)@) == with_ids(texts(old(ids)@), models_of(agent.tree())),
{
    let ghost ids0 = texts(ids@);
    let list = match agent.get("models") {
        Some(m) => m.as_list(),
        None => None,
    };
    let Some(ms) = list else {
        return ;
    };
    let ghost ts = trees(ms@);
    let mut i: usize = 0;
    assert(ts.take(0) =~= Seq::<Tree>::empty());
    while i < ms.len()
        invariant
            i <= ms.len(),
            ts == trees(ms@),
            texts(ids@) == with_ids(ids0, texts_among(ts.take(i as int))),
        decreases ms.len() - i,
    {
        let ghost known = texts_among(ts.take(i as int));
        proof {
            assert(ts.take(i + 1).drop_last() =~= ts.take(i as int));
            assert(ts.take(i + 1).last() == ms@[i as int].tree());
        }
        match ms[i].as_str() {
            Some(s) => {
                push_unique(ids, s);
                assert(texts_among(ts.take(i + 1)) == known.push(s@));
                assert(known.push(s@).drop_last() =~= known);
            },
            None => {
                assert(texts_among(ts.take(i + 1)) == known);
            },
        }
        i = i + 1;
    }
    assert(ts.take(ms@.len() as int) =~= ts);
}

/// Adds the models under `data.agents`.
fn push_agents(ids: &mut Vec<String>, v: &Json)
    ensures
        texts(final(ids)@) == with_ids(texts(old(ids)@), agent_models(v.tree())),
{
    let ghost ids0 = texts(ids@);
    let list = match v.get("data") {
        Some(d) => match d.get("agents") {
            Some(a) => a.as_list(),
            None => None,
        },
        None => None,
    };
    let Some(agents) = list else {
        return ;
    };
    let ghost ts = trees(agents@);
    let mut i: usize = 0;
    assert(ts.take(0) =~= Seq::<Tree>::empty());
    while i < agents.len()
        invariant
            i <= agents.len(),
            ts == trees(agents@),
            texts(ids@) == with_ids(ids0, models_of_all(ts.take(i as int))),
        decreases agents.len() - i,
    {
        push_models(ids, &agents[i]);
        proof {
            assert(ts.take(i + 1).drop_last() =~= ts.take(i as int));
            assert(ts.take(i + 1).last() == agents@[i as int].tree());
            lemma_with_ids_append(
                ids0,
                models_of_all(ts.take(i as int)),
                models_of(ts[i as int]),
            );
        }
        i = i + 1;
    }
    assert(ts.take(agents@.len() as int) =~= ts);
}

/// The name of one listed model.
fn name_of(m: &Json) -> (r: String)
    ensures
        r@ == item_name(m.tree()),
{
    match m.get("id") {
        Some(x) => match x.as_str() {
            Some(s) => s.to_owned(),
            None => String::new(),
        },
        None => m.str_or_empty("name"),
    }
}

/// Adds the listed models.
fn push_items(ids: &mut Vec<String>, v: &Json)
    ensures
        texts(final(ids)@) == with_ids(
            texts(old(ids)@),
            items(v.tree()).map_values(|m: Tree| item_name(m)),
        ),
{
    let ghost ids0 = texts(ids@);
    let under = match v.get("data") {
        Some(d) => d.as_list(),
        None => None,
    };
    let list = match under {
        Some(a) => Some(a),
        None => v.as_list(),
    };
    let Some(ms) = list else {
        assert(items(v.tree()).map_values(|m: Tree| item_name(m)) =~= Seq::<Seq<char>>::empty());
        return ;
    };
    let ghost ts = items(v.tree()).map_values(|m: Tree| item_name(m));
    assert(items(v.tree()) == trees(ms@));
    let mut i: usize = 0;
    assert(ts.take(0) =~= Seq::<Seq<char>>::empty());
    while i < ms.len()
        invariant
            i <= ms.len(),
            ts == trees(ms@).map_values(|m: Tree| item_name(m)),
            texts(ids@) == with_ids(ids0, ts.take(i as int)),
        decreases ms.len() - i,
    {
        let name = name_of(&ms[i]);
        push_unique(ids, name.as_str());
        proof {
            assert(ts.take(i + 1).drop_last() =~= ts.take(i as int));
            assert(ts.take(i + 1).last() == name@);
        }
        i = i + 1;
    }
    assert(ts.take(ms@.len() as int) =~= ts);
}

/// The models that are offered when upstream names none.
fn known_ids() -> (r: Vec<String>)
    ensures
        texts(r@) == known_models(),
{
    let ids = vec![
        "auto".to_owned(),
        "hy4-preview".to_owned(),
        "deepseek-v4-pro".to_owned(),
        "deepseek-v4.1-flash".to_owned(),
        "glm-5.3".to_owned(),
        "kimi-k3-1".to_owned(),
        "minimax-m3".to_owned(),
    ];
    assert(texts(ids@) =~= known_models());
    ids
}

/// The models that an answer from upstream stands for.
pub fn model_ids(v: &Json) -> (r: Vec<String>)
    ensures
        texts(r@) == offered(v.tree()),
{
    let mut ids: Vec<String> = Vec::new();
    assert(texts(ids@) =~= Seq::<Seq<char>>::empty());
    push_agents(&mut ids, v);
    assert(texts(ids@).len() == ids@.len());
    if ids.len() == 0 {
        assert(texts(ids@) =~= Seq::<Seq<char>>::empty());
        push_items(&mut ids, v);
        assert(texts(ids@).len() == ids@.len());
    }
    if ids.len() == 0 {
        ids = known_ids();
    }
    ids
}

/// One model as OpenAI clients expect it.
pub open spec fn model_entry(id: Seq<char>) -> Tree {
    Tree::Dict(
        Map::<Seq<char>, Tree>::empty().insert("id"@, Tree::Text(id)).insert(
            "object"@,
            Tree::Text("model"@),
        ).insert("owned_by"@, Tree::Text("workbuddy"@)),
    )
}

/// A list of models as OpenAI clients expect it.
pub open spec fn model_list(ids: Seq<Seq<char>>) -> Tree {
    Tree::Dict(
        Map::<Seq<char>, Tree>::empty().insert("object"@, Tree::Text("list"@)).insert(
            "data"@,
            Tree::List(ids.map_values(|id: Seq<char>| model_entry(id))),
        ),
    )
}

/// The list of the models `ids`.
fn list_document(ids: &Vec<String>) -> (r: Json)
    ensures
        r.tree() == model_list(texts(ids@)),
{
    let ghost names = texts(ids@);
    let mut data: Vec<Json> = Vec::new();
    let mut i: usize = 0;
    while i < ids.len()
        invariant
            i <= ids.len(),
            names == texts(ids@),
            data@.len() == i,
            forall|k: int| 0 <= k < i ==> (#[trigger] data@[k]).tree() == model_entry(names[k]),
        decreases ids.len() - i,
    {
        let mut m = Json::dict();
        m.set("id", Json::text(ids[i].as_str()));
        m.set("object", Json::text("model"));
        m.set("owned_by", Json::text("workbuddy"));
        assert(names[i as int] == ids@[i as int]@);
        data.push(m);
        i = i + 1;
    }
    let list = Json::List(data);
    assert(list.tree()->List_0 =~= names.map_values(|id: Seq<char>| model_entry(id)));
    let mut doc = Json::dict();
    doc.set("object", Json::text("list"));
    doc.set("data", list);
    doc
}

/// The list of models that an answer from upstream stands for.
pub fn model_document(v: &Json) -> (r: Json)
    ensures
        r.tree() == model_list(offered(v.tree())),
{
    list_document(&model_ids(v))
}

/// How asking upstream for its models ended.
pub enum Fetched {
    /// No account could be taken.
    NoAccount,
    /// The client could not be set up.
    NoClient(String),
    /// Upstream could not be reached, or its answer could not be read.
    Failed(String),
    /// Upstream answered.
    Document(Json),
}

/// What is done with a request for the models.
pub enum ModelsAct {
    /// It is refused.
    Refuse(Reply),
    /// An account is taken, and upstream is asked.
    Fetch,
}

/// Whether `r` is what is done with a request for the models, given whether the client is
/// admitted.
pub open spec fn models_begun(admitted: bool, r: ModelsAct) -> bool {
    match r {
        ModelsAct::Fetch => admitted,
        ModelsAct::Refuse(reply) => !admitted && reply.shows(401, error_of("invalid api key"@)),
    }
}

/// Whether `r` is the reply to a request for the models, given whether the client is admitted
/// and how asking upstream ended.
pub open spec fn models_answered(admitted: bool, fetched: Fetched, r: Reply) -> bool {
    if !admitted {
        r.shows(401, error_of("invalid api key"@))
    } else {
        match fetched {
            Fetched::NoAccount => r.shows(503, error_of("no available account"@)),
            Fetched::NoClient(e) => r.says(500, e@),
            Fetched::Failed(_) => r.shows(200, model_list(known_models())),
            Fetched::Document(v) => r.shows(200, model_list(offered(v.tree()))),
        }
    }
}

/// Decides whether upstream is asked for its models, for a request with the
/// authorization header `header`. A request without the key is refused before an
/// account is taken.
pub fn begin_models(header: Option<&str>, cfg: &ProxyConfig) -> (r: ModelsAct)
    ensures
        models_begun(admitted(opt_str(header), cfg.api_key@), r),
{
    if check_auth(header, cfg) {
        ModelsAct::Fetch
    } else {
        ModelsAct::Refuse(unauthorized())
    }
}

/// The reply to a request for the models with the authorization header `header`. Where
/// the models cannot be had from upstream, the known ones are offered.
pub fn list_models(header: Option<&str>, cfg: &ProxyConfig, fetched: &Fetched) -> (r: Reply)
    ensures
        models_answered(admitted(opt_str(header), cfg.api_key@), *fetched, r),
{
    match begin_models(header, cfg) {
        ModelsAct::Refuse(reply) => reply,
        ModelsAct::Fetch => match fetched {
            Fetched::NoAccount => error_reply(503, "no available account"),
            Fetched::NoClient(e) => text_reply(500, e.as_str()),
            Fetched::Failed(_) => document_reply(list_document(&known_ids())),
            Fetched::Document(v) => document_reply(model_document(v)),
        },
    }
}

/// Adding names keeps them distinct and not empty, and adds every name that is not
/// empty.
proof fn lemma_with_ids(ids: Seq<Seq<char>>, more: Seq<Seq<char>>)
    requires
        ids.no_duplicates(),
        forall|i: int| 0 <= i < ids.len() ==> (#[trigger] ids[i]).len() > 0,
    ensures
        with_ids(ids, more).no_duplicates(),
        forall|i: int|
            0 <= i < with_ids(ids, more).len() ==> (#[trigger] with_ids(ids, more)[i]).len() > 0,
        forall|i: int|
            0 <= i < more.len() && (#[trigger] more[i]).len() > 0 ==> with_ids(ids, more).contains(
                more[i],
            ),
        forall|x: Seq<char>|
            #![trigger ids.contains(x)]
            ids.contains(x) ==> with_ids(ids, more).contains(x),
    decreases more.len(),
{
    if more.len() > 0 {
        let b = with_ids(ids, more.drop_last());
        let x = more.last();
        let r = with_ids(ids, more);
        lemma_with_ids(ids, more.drop_last());
        if x.len() > 0 && !b.contains(x) {
            assert(r[b.len() as int] == x);
        }
        assert forall|y: Seq<char>| b.contains(y) implies r.contains(y) by {
            let k = choose|k: int| 0 <= k < b.len() && b[k] == y;
            assert(r[k] == y);
        }
        assert forall|i: int| 0 <= i < more.len() && (#[trigger] more[i]).len() > 0 implies r.contains(
            more[i],
        ) by {
            if i < more.len() - 1 {
                assert(more.drop_last()[i] == more[i]);
                assert(b.contains(more[i]));
            }
        }
    }
}

/// The list of models is never empty, whatever upstream answers, and names each
/// model once.
pub proof fn offer_is_never_empty(v: Tree)
    ensures
        offered(v).len() > 0,
        offered(v).no_duplicates(),
        forall|i: int| 0 <= i < offered(v).len() ==> (#[trigger] offered(v)[i]).len() > 0,
{
    let none = Seq::<Seq<char>>::empty();
    lemma_with_ids(none, agent_models(v));
    lemma_with_ids(none, items(v).map_values(|m: Tree| item_name(m)));
    reveal_strlit("auto");
    reveal_strlit("hy4-preview");
    reveal_strlit("deepseek-v4-pro");
    reveal_strlit("deepseek-v4.1-flash");
    reveal_strlit("glm-5.3");
    reveal_strlit("kimi-k3-1");
    reveal_strlit("minimax-m3");
    assert("auto"@.len() == 4);
    assert("hy4-preview"@.len() == 11);
    assert("deepseek-v4-pro"@.len() == 15);
    assert("deepseek-v4.1-flash"@.len() == 19);
    assert("glm-5.3"@.len() == 7);
    assert("kimi-k3-1"@.len() == 9);
    assert("minimax-m3"@.len() == 10);
}

/// Every model that upstream names under its agents is offered.
pub proof fn agent_models_are_offered(v: Tree, i: int)
    requires
        0 <= i < agent_models(v).len(),
        agent_models(v)[i].len() > 0,
    ensures
        offered(v).contains(agent_models(v)[i]),
{
    let none = Seq::<Seq<char>>::empty();
    lemma_with_ids(none, agent_models(v));
}

/// Where upstream names no model, the known ones are offered.
pub proof fn known_models_are_the_last_resort(v: Tree)
    requires
        forall|i: int| 0 <= i < agent_models(v).len() ==> (#[trigger] agent_models(v)[i]).len() == 0,
        forall|i: int| 0 <= i < items(v).len() ==> item_name(#[trigger] items(v)[i]).len() == 0,
    ensures
        offered(v) == known_models(),
{
    let none = Seq::<Seq<char>>::empty();
    lemma_blank_names(agent_models(v));
    let names = items(v).map_values(|m: Tree| item_name(m));
    assert forall|i: int| 0 <= i < names.len() implies (#[trigger] names[i]).len() == 0 by {
        assert(names[i] == item_name(items(v)[i]));
    }
    lemma_blank_names(names);
}

/// Blank names are not added.
proof fn lemma_blank_names(more: Seq<Seq<char>>)
    requires
        forall|i: int| 0 <= i < more.len() ==> (#[trigger] more[i]).len() == 0,
    ensures
        with_ids(Seq::empty(), more) == Seq::<Seq<char>>::empty(),
    decreases more.len(),
{
    if more.len() > 0 {
        let before = more.drop_last();
        assert forall|i: int| 0 <= i < before.len() implies (#[trigger] before[i]).len() == 0 by {
            assert(before[i] == more[i]);
        }
        lemma_blank_names(before);
        assert(more[more.len() - 1].len() == 0);
    }
}

} // verus!
