//! Which accounts take part, when a token is renewed, and what is shown of accounts.

use vstd::prelude::*;

use crate::json::{Json, Tree};
use super::account::{
    account_status, answers_to, eligible, found, health_document, in_use, permitted,
    picked, stale, state_document, statuses, taking, usable, usable_count, Refresh, Take,
};
use super::pool::Turn;

verus! {

/// A token is renewed just if it has less than two hours left; one without a time of expiry
/// counts as expired at the beginning of time.
pub proof fn token_is_renewed_in_time(acc: Tree, now_ms: int)
    ensures
        match acc.get("expiresAt"@) {
            Some(Tree::Int(t)) => if i64::MIN <= t <= i64::MAX {
                stale(acc, now_ms) <==> t - now_ms < 2 * 60 * 60 * 1000
            } else {
                stale(acc, now_ms) <==> 0 - now_ms < 2 * 60 * 60 * 1000
            },
            _ => stale(acc, now_ms) <==> 0 - now_ms < 2 * 60 * 60 * 1000,
        },
{
}

/// A token that has expired is always renewed, however long ago that was, and so is one
/// without a time of expiry.
pub proof fn expired_token_is_renewed(acc: Tree, now_ms: int)
    requires
        acc.get("expiresAt"@) matches Some(Tree::Int(t)) ==> i64::MIN <= t <= now_ms,
        !(acc.get("expiresAt"@) matches Some(Tree::Int(_))) ==> now_ms >= 0,
    ensures
        stale(acc, now_ms),
{
}

/// A token that is to be renewed is so at every later time.
pub proof fn token_stays_stale(acc: Tree, earlier: int, later: int)
    requires
        earlier <= later,
        stale(acc, earlier),
    ensures
        stale(acc, later),
{
}

/// Of two tokens, the one that expires sooner is to be renewed if the other is.
pub proof fn sooner_expiry_is_renewed_first(a: Tree, b: Tree, s: i64, t: i64, now_ms: int)
    requires
        a.get("expiresAt"@) == Some(Tree::Int(s as int)),
        b.get("expiresAt"@) == Some(Tree::Int(t as int)),
        s <= t,
        stale(b, now_ms),
    ensures
        stale(a, now_ms),
{
}

/// An account that is used as it is has at least two hours left, and one that is renewed
/// first has less.
pub proof fn fresh_account_has_time_left(
    turns: Seq<Turn>,
    cursor: int,
    now: int,
    accounts: Seq<Tree>,
    now_ms: int,
    r: Take,
    t: i64,
)
    requires
        taking(picked(turns, cursor, now, accounts), now_ms, r),
        match r {
            Take::Nobody => false,
            Take::Stale(_, a) => a.tree().get("expiresAt"@) == Some(Tree::Int(t as int)),
            Take::Fresh(_, a) => a.tree().get("expiresAt"@) == Some(Tree::Int(t as int)),
        },
    ensures
        r is Fresh <==> t >= now_ms + 7_200_000,
        r is Stale <==> t < now_ms + 7_200_000,
        picked(turns, cursor, now, accounts) matches Some((uid, acc)) && match r {
            Take::Nobody => false,
            Take::Stale(u, a) => u@ == uid && a.tree() == acc,
            Take::Fresh(u, a) => u@ == uid && a.tree() == acc,
        },
{
}

/// An account needs a new login just if its mark says so and is true.
pub proof fn mark_decides_on_a_new_login(acc: Tree)
    ensures
        usable(acc) <==> acc.get("needs_relogin"@) != Some(Tree::Bool(true)),
{
}

/// An account whose token was renewed is used as it is then, not as it was; one that needs a
/// new login then, or whose renewal took too long, is not used.
pub proof fn renewed_account_is_used(acc: Json, refresh: Refresh)
    ensures
        refresh is NotNeeded ==> in_use(acc, refresh) == Some(acc),
        refresh is TimedOut ==> in_use(acc, refresh) is None,
        refresh matches Refresh::Done(now) ==> (in_use(acc, refresh) == Some(now) <==> now.tree().get(
            "needs_relogin"@,
        ) != Some(Tree::Bool(true))),
        refresh matches Refresh::Done(now) ==> (in_use(acc, refresh) is None <==> now.tree().get(
            "needs_relogin"@,
        ) == Some(Tree::Bool(true))),
{
}

/// An account is permitted if none is named, or if its identifier is one of those named.
pub proof fn named_accounts_are_permitted(acc: Tree, allowed: Seq<Seq<char>>)
    ensures
        allowed.len() == 0 ==> permitted(acc, allowed),
        allowed.len() > 0 ==> (permitted(acc, allowed) <==> exists|i: int|
            0 <= i < allowed.len() && acc.get("uid"@) == Some(Tree::Text(#[trigger] allowed[i]))),
{
    if allowed.len() > 0 {
        if permitted(acc, allowed) {
            let u = acc.text_of("uid"@)->0;
            let i = choose|i: int| 0 <= i < allowed.len() && allowed[i] == u;
            assert(acc.get("uid"@) == Some(Tree::Text(allowed[i])));
        }
        if exists|i: int|
            0 <= i < allowed.len() && acc.get("uid"@) == Some(Tree::Text(#[trigger] allowed[i])) {
            let i = choose|i: int|
                0 <= i < allowed.len() && acc.get("uid"@) == Some(Tree::Text(#[trigger] allowed[i]));
            assert(allowed.contains(allowed[i]));
        }
    }
}

/// The accounts that take part are told apart one by one and keep their order: those of two
/// lists one after the other are those of the first and then those of the second, and a
/// single account takes part if it has an identifier, needs no new login and is permitted.
pub proof fn accounts_take_part_one_by_one(
    a: Seq<Tree>,
    b: Seq<Tree>,
    acc: Tree,
    allowed: Seq<Seq<char>>,
)
    ensures
        eligible(a + b, allowed) == eligible(a, allowed) + eligible(b, allowed),
        eligible(seq![acc], allowed) == match acc.get("uid"@) {
            Some(Tree::Text(u)) => if acc.get("needs_relogin"@) != Some(Tree::Bool(true))
                && permitted(acc, allowed) {
                seq![u]
            } else {
                Seq::empty()
            },
            _ => Seq::empty(),
        },
    decreases b.len(),
{
    assert(seq![acc].drop_last() =~= Seq::<Tree>::empty());
    assert(eligible(Seq::<Tree>::empty(), allowed) =~= Seq::<Seq<char>>::empty());
    if let Some(Tree::Text(u)) = acc.get("uid"@) {
        assert(Seq::<Seq<char>>::empty().push(u) =~= seq![u]);
    }
    if b.len() == 0 {
        assert(a + b =~= a);
        assert(eligible(a, allowed) + eligible(b, allowed) =~= eligible(a, allowed));
    } else {
        accounts_take_part_one_by_one(a, b.drop_last(), acc, allowed);
        assert((a + b).drop_last() =~= a + b.drop_last());
        assert(eligible(a + b, allowed) =~= eligible(a, allowed) + eligible(b, allowed));
    }
}

/// Accounts that need no new login are counted one by one.
pub proof fn usable_accounts_are_counted(a: Seq<Tree>, b: Seq<Tree>, acc: Tree)
    ensures
        usable_count(a + b) == usable_count(a) + usable_count(b),
        usable_count(seq![acc]) == if acc.get("needs_relogin"@) == Some(Tree::Bool(true)) {
            0nat
        } else {
            1nat
        },
        usable_count(a) <= a.len(),
    decreases b.len(), a.len(),
{
    assert(seq![acc].drop_last() =~= Seq::<Tree>::empty());
    reveal_with_fuel(usable_count, 2);
    if b.len() == 0 {
        assert(a + b =~= a);
        if a.len() > 0 {
            usable_accounts_are_counted(a.drop_last(), b, acc);
        }
    } else {
        usable_accounts_are_counted(a, b.drop_last(), acc);
        assert((a + b).drop_last() =~= a + b.drop_last());
    }
}

/// Accounts that are permitted are shown one by one, in order.
pub proof fn accounts_are_shown_one_by_one(
    a: Seq<Tree>,
    b: Seq<Tree>,
    acc: Tree,
    allowed: Seq<Seq<char>>,
)
    ensures
        statuses(a + b, allowed) == statuses(a, allowed) + statuses(b, allowed),
        statuses(seq![acc], allowed) == if permitted(acc, allowed) {
            seq![account_status(acc)]
        } else {
            Seq::empty()
        },
    decreases b.len(),
{
    assert(seq![acc].drop_last() =~= Seq::<Tree>::empty());
    assert(statuses(Seq::<Tree>::empty(), allowed) =~= Seq::<Tree>::empty());
    assert(Seq::<Tree>::empty().push(account_status(acc)) =~= seq![account_status(acc)]);
    if b.len() == 0 {
        assert(a + b =~= a);
        assert(statuses(a, allowed) + statuses(b, allowed) =~= statuses(a, allowed));
    } else {
        accounts_are_shown_one_by_one(a, b.drop_last(), acc, allowed);
        assert((a + b).drop_last() =~= a + b.drop_last());
        assert(statuses(a + b, allowed) =~= statuses(a, allowed) + statuses(b, allowed));
    }
}

/// The names of members of what is shown differ from each other.
proof fn lemma_status_names()
    ensures
        "uid"@ != "nickname"@,
        "uid"@ != "needs_relogin"@,
        "uid"@ != "expiresAt"@,
        "nickname"@ != "needs_relogin"@,
        "nickname"@ != "expiresAt"@,
        "needs_relogin"@ != "expiresAt"@,
        "ok"@ != "service"@,
        "ok"@ != "healthy"@,
        "ok"@ != "total"@,
        "service"@ != "healthy"@,
        "service"@ != "total"@,
        "healthy"@ != "total"@,
        "enabled"@ != "listen"@,
        "enabled"@ != "accounts"@,
        "listen"@ != "accounts"@,
{
    reveal_strlit("uid");
    reveal_strlit("nickname");
    reveal_strlit("needs_relogin");
    reveal_strlit("expiresAt");
    reveal_strlit("ok");
    reveal_strlit("service");
    reveal_strlit("healthy");
    reveal_strlit("total");
    reveal_strlit("enabled");
    reveal_strlit("listen");
    reveal_strlit("accounts");
    assert("uid"@.len() == 3);
    assert("nickname"@.len() == 8);
    assert("needs_relogin"@.len() == 13);
    assert("expiresAt"@.len() == 9);
    assert("ok"@.len() == 2);
    assert("service"@.len() == 7);
    assert("healthy"@.len() == 7);
    assert("service"@[0] == 's');
    assert("healthy"@[0] == 'h');
    assert("total"@.len() == 5);
    assert("enabled"@.len() == 7);
    assert("listen"@.len() == 6);
    assert("accounts"@.len() == 8);
}

/// What is shown of an account: its identifier, its name and its time of expiry where it has
/// them, otherwise `null`, and whether it needs a new login. Its tokens are not shown.
pub proof fn status_shows_the_account(acc: Tree, k: Seq<char>)
    ensures
        account_status(acc).get("uid"@) == Some(
            match acc.get("uid"@) {
                Some(Tree::Text(s)) => Tree::Text(s),
                _ => Tree::Null,
            },
        ),
        account_status(acc).get("nickname"@) == Some(
            match acc.get("nickname"@) {
                Some(Tree::Text(s)) => Tree::Text(s),
                _ => Tree::Null,
            },
        ),
        account_status(acc).get("needs_relogin"@) == Some(
            Tree::Bool(acc.get("needs_relogin"@) == Some(Tree::Bool(true))),
        ),
        account_status(acc).get("expiresAt"@) == Some(
            if acc.get("expiresAt"@) matches Some(Tree::Int(t)) && i64::MIN <= t <= i64::MAX {
                acc.get("expiresAt"@)->0
            } else {
                Tree::Null
            },
        ),
        k != "uid"@ && k != "nickname"@ && k != "needs_relogin"@ && k != "expiresAt"@
            ==> account_status(acc).get(k) is None,
{
    lemma_status_names();
}

/// What is shown of the gateway: its settings and its accounts, but not its key.
pub proof fn state_shows_the_settings(
    enabled: bool,
    listen: Seq<char>,
    shown: Seq<Tree>,
    k: Seq<char>,
)
    ensures
        ({
            let d = state_document(enabled, listen, shown);
            &&& d.get("enabled"@) == Some(Tree::Bool(enabled))
            &&& d.get("listen"@) == Some(Tree::Text(listen))
            &&& d.get("accounts"@) == Some(Tree::List(shown))
            &&& k != "enabled"@ && k != "listen"@ && k != "accounts"@ ==> d.get(k) is None
        }),
{
    lemma_status_names();
}

/// The health of the gateway tells both counts, each under its name.
pub proof fn health_tells_both_counts(healthy: int, total: int)
    ensures
        ({
            let d = health_document(healthy, total);
            &&& d.get("ok"@) == Some(Tree::Bool(true))
            &&& d.get("service"@) == Some(Tree::Text("wb-switch-proxy"@))
            &&& d.get("healthy"@) == Some(Tree::Int(healthy))
            &&& d.get("total"@) == Some(Tree::Int(total))
        }),
{
    lemma_status_names();
}

/// The account that is found under an identifier is the first that has it and needs no new
/// login.
pub proof fn first_account_is_found(accounts: Seq<Tree>, uid: Seq<char>, i: int)
    requires
        0 <= i < accounts.len(),
        accounts[i].get("uid"@) == Some(Tree::Text(uid)),
        accounts[i].get("needs_relogin"@) != Some(Tree::Bool(true)),
        forall|j: int|
            0 <= j < i ==> !((#[trigger] accounts[j]).get("uid"@) == Some(Tree::Text(uid))
                && accounts[j].get("needs_relogin"@) != Some(Tree::Bool(true))),
    ensures
        found(accounts, uid) == Some(accounts[i]),
    decreases i,
{
    if i > 0 {
        let rest = accounts.skip(1);
        assert(!answers_to(accounts[0], uid));
        assert(rest[i - 1] == accounts[i]);
        assert forall|j: int| 0 <= j < i - 1 implies !((#[trigger] rest[j]).get("uid"@) == Some(
            Tree::Text(uid),
        ) && rest[j].get("needs_relogin"@) != Some(Tree::Bool(true))) by {
            assert(rest[j] == accounts[j + 1]);
        }
        first_account_is_found(rest, uid, i - 1);
    }
}

/// No account is found under an identifier that none has who needs no new login.
pub proof fn no_account_is_found(accounts: Seq<Tree>, uid: Seq<char>)
    requires
        forall|j: int|
            0 <= j < accounts.len() ==> !((#[trigger] accounts[j]).get("uid"@) == Some(
                Tree::Text(uid),
            ) && accounts[j].get("needs_relogin"@) != Some(Tree::Bool(true))),
    ensures
        found(accounts, uid) is None,
    decreases accounts.len(),
{
    if accounts.len() > 0 {
        let rest = accounts.skip(1);
        assert(!answers_to(accounts[0], uid));
        assert forall|j: int| 0 <= j < rest.len() implies !((#[trigger] rest[j]).get("uid"@)
            == Some(Tree::Text(uid)) && rest[j].get("needs_relogin"@) != Some(
            Tree::Bool(true),
        )) by {
            assert(rest[j] == accounts[j + 1]);
        }
        no_account_is_found(rest, uid);
    }
}

} // verus!
