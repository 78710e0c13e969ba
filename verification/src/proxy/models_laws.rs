//! Which models are offered, in which order, and how they are listed.

use vstd::prelude::*;

use crate::json::Tree;
use super::chat_laws::{document, errors_hold_their_message, message, plain};
use super::models::{
    agent_models, item_name, items, known_models, model_entry, model_list, models_answered,
    models_begun, models_of, models_of_all, offered, texts_among, with_ids, Fetched, ModelsAct,
};
use super::reply::Reply;

verus! {

/// Names are added one after the other, each at the end: what was there stays in front, and
/// adding two lists is adding the one and then the other.
pub proof fn names_are_added_in_order(
    ids: Seq<Seq<char>>,
    a: Seq<Seq<char>>,
    b: Seq<Seq<char>>,
    x: Seq<char>,
)
    ensures
        with_ids(ids, a + b) == with_ids(with_ids(ids, a), b),
        with_ids(ids, a).len() >= ids.len(),
        with_ids(ids, a).take(ids.len() as int) == ids,
        with_ids(ids, seq![x]) == if x.len() == 0 || ids.contains(x) {
            ids
        } else {
            ids.push(x)
        },
    decreases a.len() + b.len(),
{
    assert(seq![x].drop_last() =~= Seq::<Seq<char>>::empty());
    assert(with_ids(ids, Seq::<Seq<char>>::empty()) == ids);
    if b.len() > 0 {
        assert((a + b).drop_last() =~= a + b.drop_last());
        assert((a + b).last() == b.last());
        names_are_added_in_order(ids, a, b.drop_last(), x);
    } else {
        assert(a + b =~= a);
        if a.len() > 0 {
            names_are_added_in_order(ids, a.drop_last(), b, x);
            let c = with_ids(ids, a.drop_last());
            assert(with_ids(ids, a).take(ids.len() as int) =~= c.take(ids.len() as int));
        }
    }
    assert(ids.take(ids.len() as int) =~= ids);
}

/// Names that are added are just those given that are not empty.
pub proof fn only_given_names_are_added(more: Seq<Seq<char>>, x: Seq<char>)
    ensures
        with_ids(Seq::empty(), more).contains(x) <==> x.len() > 0 && more.contains(x),
    decreases more.len(),
{
    let none = Seq::<Seq<char>>::empty();
    if more.len() > 0 {
        let before = more.drop_last();
        let y = more.last();
        let b = with_ids(none, before);
        let r = with_ids(none, more);
        only_given_names_are_added(before, x);
        only_given_names_are_added(before, y);
        assert(more.contains(x) <==> before.contains(x) || x == y) by {
            if more.contains(x) {
                let k = choose|k: int| 0 <= k < more.len() && more[k] == x;
                if k < before.len() {
                    assert(before[k] == x);
                }
            }
            if before.contains(x) {
                let k = choose|k: int| 0 <= k < before.len() && before[k] == x;
                assert(more[k] == x);
            }
            if x == y {
                assert(more[more.len() - 1] == x);
            }
        }
        if b.contains(x) {
            let k = choose|k: int| 0 <= k < b.len() && b[k] == x;
            assert(r[k] == x);
        }
        if y.len() > 0 && !b.contains(y) {
            assert(r[b.len() as int] == y);
        }
    }
}

/// Of a list of documents the texts count, in order.
pub proof fn texts_count_one_by_one(a: Seq<Tree>, b: Seq<Tree>, t: Tree)
    ensures
        texts_among(a + b) == texts_among(a) + texts_among(b),
        texts_among(seq![t]) == match t {
            Tree::Text(s) => seq![s],
            _ => Seq::empty(),
        },
    decreases b.len(),
{
    let none = Seq::<Tree>::empty();
    assert(seq![t].drop_last() =~= none);
    assert(texts_among(none) =~= Seq::<Seq<char>>::empty());
    if let Tree::Text(s) = t {
        assert(Seq::<Seq<char>>::empty().push(s) =~= seq![s]);
    }
    if b.len() == 0 {
        assert(a + b =~= a);
        assert(texts_among(a) + texts_among(b) =~= texts_among(a));
    } else {
        assert((a + b).drop_last() =~= a + b.drop_last());
        texts_count_one_by_one(a, b.drop_last(), t);
        assert(texts_among(a + b) =~= texts_among(a) + texts_among(b));
    }
}

/// The models of agents are those of each agent, agent by agent: the texts under `models`.
pub proof fn agents_count_one_by_one(a: Seq<Tree>, b: Seq<Tree>, agent: Tree)
    ensures
        models_of_all(a + b) == models_of_all(a) + models_of_all(b),
        models_of_all(seq![agent]) == match agent.get("models"@) {
            Some(Tree::List(ms)) => texts_among(ms),
            _ => Seq::empty(),
        },
    decreases b.len(),
{
    let none = Seq::<Tree>::empty();
    assert(seq![agent].drop_last() =~= none);
    assert(models_of_all(none) =~= Seq::<Seq<char>>::empty());
    assert(models_of_all(none) + models_of(agent) =~= models_of(agent));
    if b.len() == 0 {
        assert(a + b =~= a);
        assert(models_of_all(a) + models_of_all(b) =~= models_of_all(a));
    } else {
        assert((a + b).drop_last() =~= a + b.drop_last());
        agents_count_one_by_one(a, b.drop_last(), agent);
        assert(models_of_all(a + b) =~= models_of_all(a) + models_of_all(b));
    }
}

/// The agents are those under `data.agents`, and listed are the items under `data` or else
/// the answer itself; an item has the name under `id`, or that under `name` if it has no
/// `id`.
pub proof fn models_are_read_from_the_answer(v: Tree, m: Tree)
    ensures
        match v.get("data"@) {
            Some(d) => match d.get("agents"@) {
                Some(Tree::List(a)) => agent_models(v) == models_of_all(a),
                _ => agent_models(v).len() == 0,
            },
            None => agent_models(v).len() == 0,
        },
        v.get("data"@) matches Some(Tree::List(a)) ==> items(v) == a,
        v matches Tree::List(a) ==> items(v) == a,
        !(v is List) && !(v.get("data"@) matches Some(Tree::List(_))) ==> items(v).len() == 0,
        m.get("id"@) matches Some(Tree::Text(s)) ==> item_name(m) == s,
        m.get("id"@) matches Some(x) && !(x is Text) ==> item_name(m).len() == 0,
        m.get("id"@) is None ==> match m.get("name"@) {
            Some(Tree::Text(s)) => item_name(m) == s,
            _ => item_name(m).len() == 0,
        },
{
}

/// Where upstream names models under its agents, just these are offered; else just those that
/// it lists, if it lists any.
pub proof fn named_models_are_offered(v: Tree, x: Seq<char>, i: int)
    ensures
        0 <= i < agent_models(v).len() && agent_models(v)[i].len() > 0 ==> (offered(v).contains(x)
            <==> x.len() > 0 && agent_models(v).contains(x)),
        (forall|j: int| 0 <= j < agent_models(v).len() ==> (#[trigger] agent_models(v)[j]).len() == 0)
            && 0 <= i < items(v).len() && item_name(items(v)[i]).len() > 0 ==> (offered(v).contains(x)
            <==> x.len() > 0 && exists|j: int|
            0 <= j < items(v).len() && item_name(#[trigger] items(v)[j]) == x),
{
    let none = Seq::<Seq<char>>::empty();
    let names = items(v).map_values(|m: Tree| item_name(m));
    only_given_names_are_added(agent_models(v), x);
    only_given_names_are_added(names, x);
    if 0 <= i < agent_models(v).len() && agent_models(v)[i].len() > 0 {
        only_given_names_are_added(agent_models(v), agent_models(v)[i]);
        assert(with_ids(none, agent_models(v)).contains(agent_models(v)[i]));
    }
    if (forall|j: int| 0 <= j < agent_models(v).len() ==> (#[trigger] agent_models(v)[j]).len() == 0)
        && 0 <= i < items(v).len() && item_name(items(v)[i]).len() > 0 {
        let a = with_ids(none, agent_models(v));
        if a.len() > 0 {
            only_given_names_are_added(agent_models(v), a[0]);
            assert(a.contains(a[0]));
            let j = choose|j: int| 0 <= j < agent_models(v).len() && agent_models(v)[j] == a[0];
            assert(agent_models(v)[j].len() == 0);
        }
        only_given_names_are_added(names, names[i]);
        assert(names.contains(names[i]));
        assert(with_ids(none, names).contains(names[i]));
        if names.contains(x) {
            let j = choose|j: int| 0 <= j < names.len() && names[j] == x;
            assert(item_name(items(v)[j]) == x);
        }
        if exists|j: int| 0 <= j < items(v).len() && item_name(#[trigger] items(v)[j]) == x {
            let j = choose|j: int|
                0 <= j < items(v).len() && item_name(#[trigger] items(v)[j]) == x;
            assert(names[j] == x);
        }
    }
}

/// Models are offered in the order in which upstream names them: with the agents that come
/// first, what they name comes first.
pub proof fn offer_keeps_the_order(v: Tree, a: Seq<Tree>, b: Seq<Tree>)
    requires
        v.get("data"@) matches Some(d) && d.get("agents"@) == Some(Tree::List(a + b)),
        with_ids(Seq::empty(), models_of_all(a)).len() > 0,
    ensures
        offered(v) == with_ids(with_ids(Seq::empty(), models_of_all(a)), models_of_all(b)),
        offered(v).take(with_ids(Seq::empty(), models_of_all(a)).len() as int) == with_ids(
            Seq::empty(),
            models_of_all(a),
        ),
{
    let none = Seq::<Seq<char>>::empty();
    let first = with_ids(none, models_of_all(a));
    agents_count_one_by_one(a, b, v);
    names_are_added_in_order(none, models_of_all(a), models_of_all(b), Seq::empty());
    names_are_added_in_order(first, models_of_all(b), none, Seq::empty());
}

/// The names of members of a list differ from each other.
proof fn lemma_list_names()
    ensures
        "object"@ != "data"@,
        "id"@ != "object"@,
        "id"@ != "owned_by"@,
        "object"@ != "owned_by"@,
{
    reveal_strlit("object");
    reveal_strlit("data");
    reveal_strlit("id");
    reveal_strlit("owned_by");
    assert("object"@.len() == 6);
    assert("data"@.len() == 4);
    assert("id"@.len() == 2);
    assert("owned_by"@.len() == 8);
}

/// A list names every model that it is made of, in order, and no other.
pub proof fn list_names_its_models(ids: Seq<Seq<char>>, i: int)
    ensures
        model_list(ids).get("object"@) == Some(Tree::Text("list"@)),
        model_list(ids).get("data"@) matches Some(Tree::List(a)) && a.len() == ids.len() && (0 <= i
            < a.len() ==> a[i].get("id"@) == Some(Tree::Text(ids[i])) && a[i].get("object"@)
            == Some(Tree::Text("model"@)) && a[i].get("owned_by"@) == Some(
            Tree::Text("workbuddy"@),
        )),
{
    lemma_list_names();
    if 0 <= i < ids.len() {
        assert(ids.map_values(|id: Seq<char>| model_entry(id))[i] == model_entry(ids[i]));
    }
}

/// The models that are known are seven, the automatic choice first.
pub proof fn automatic_choice_comes_first()
    ensures
        known_models().len() == 7,
        known_models()[0] == "auto"@,
        known_models().contains("deepseek-v4-pro"@),
        known_models().contains("glm-5.3"@),
        known_models().contains("minimax-m3"@),
{
    assert(known_models()[2] == "deepseek-v4-pro"@);
    assert(known_models()[4] == "glm-5.3"@);
    assert(known_models()[6] == "minimax-m3"@);
}

/// A client that is not admitted is refused, whatever upstream says, and before it is asked.
/// One that is gets a list of models as soon as an account could be taken and a client set
/// up, whether upstream answers or not.
pub proof fn models_are_listed_even_without_upstream(
    admitted: bool,
    fetched: Fetched,
    a: ModelsAct,
    r: Reply,
)
    requires
        models_begun(admitted, a),
        models_answered(admitted, fetched, r),
    ensures
        a is Fetch <==> admitted,
        a matches ModelsAct::Refuse(reply) ==> reply.status == 401,
        !admitted ==> r.status == 401 && (document(r) matches Some(t) && message(t) == Some(
            Tree::Text("invalid api key"@),
        )),
        admitted && fetched is NoAccount ==> r.status == 503 && (document(r) matches Some(t)
            && message(t) == Some(Tree::Text("no available account"@))),
        admitted ==> (fetched matches Fetched::NoClient(e) ==> r.status == 500 && plain(r) == Some(
            e@,
        )),
        admitted && fetched is Failed ==> r.status == 200 && document(r) == Some(
            model_list(known_models()),
        ),
        admitted ==> (fetched matches Fetched::Document(v) ==> r.status == 200 && document(r)
            == Some(model_list(offered(v.tree())))),
{
    errors_hold_their_message("invalid api key"@);
    errors_hold_their_message("no available account"@);
}

} // verus!
