//! Which accounts take part in the gateway, and what is done before one is used.

use vstd::prelude::*;

use crate::json::{trees, Json, Tree};
use crate::text::{listed, same, texts};
use super::config::ProxyConfig;
use super::pool::{
    cooling, failed, following, free, free_accounts_are_listed, lemma_reached, Pool, Turn, COOLDOWN,
};

verus! {

/// A token that is valid for less than this is renewed first, in milliseconds: two
/// hours.
pub const REFRESH_MARGIN_MS: i64 = 7_200_000;

/// How long renewing a token may take, in seconds.
pub const REFRESH_WAIT_SECS: u64 = 30;

/// Whether an account need not be logged in again.
pub open spec fn usable(acc: Tree) -> bool {
    acc.flag_of("needs_relogin"@) != Some(true)
}

/// Whether an account is one of `allowed`; all are if none is named.
pub open spec fn permitted(acc: Tree, allowed: Seq<Seq<char>>) -> bool {
    allowed.len() == 0 || match acc.text_of("uid"@) {
        Some(u) => allowed.contains(u),
        None => false,
    }
}

/// The identifiers of the accounts that take part.
pub open spec fn eligible(accounts: Seq<Tree>, allowed: Seq<Seq<char>>) -> Seq<Seq<char>>
    decreases accounts.len(),
{
    if accounts.len() == 0 {
        Seq::empty()
    } else {
        let before = eligible(accounts.drop_last(), allowed);
        let acc = accounts.last();
        match acc.text_of("uid"@) {
            Some(u) => if usable(acc) && permitted(acc, allowed) {
                before.push(u)
            } else {
                before
            },
            None => before,
        }
    }
}

/// How many accounts need not be logged in again.
pub open spec fn usable_count(accounts: Seq<Tree>) -> nat
    decreases accounts.len(),
{
    if accounts.len() == 0 {
        0
    } else {
        usable_count(accounts.drop_last()) + if usable(accounts.last()) {
            1nat
        } else {
            0nat
        }
    }
}

/// Whether an account need not be logged in again.
fn is_usable(acc: &Json) -> (r: bool)
    ensures
        r == usable(acc.tree()),
{
    match acc.flag_of("needs_relogin") {
        Some(b) => !b,
        None => true,
    }
}

/// Whether an account is one of `allowed`; all are if none is named.
pub fn is_permitted(acc: &Json, allowed: &Vec<String>) -> (r: bool)
    ensures
        r == permitted(acc.tree(), texts(allowed@)),
{
    if allowed.len() == 0 {
        return true;
    }
    match acc.str_of("uid") {
        Some(u) => listed(allowed, u),
        None => false,
    }
}

/// The identifiers of the accounts that take part.
pub fn eligible_uids(cfg: &ProxyConfig, accounts: &Vec<Json>) -> (r: Vec<String>)
    ensures
        texts(r@) == eligible(trees(accounts@), texts(cfg.accounts@)),
{
    let ghost all = trees(accounts@);
    let ghost allowed = texts(cfg.accounts@);
    let mut out: Vec<String> = Vec::new();
    let mut i: usize = 0;
    proof {
        assert(all.take(0) =~= Seq::<Tree>::empty());
        assert(texts(out@) =~= Seq::<Seq<char>>::empty());
    }
    while i < accounts.len()
        invariant
            i <= accounts.len(),
            all == trees(accounts@),
            allowed == texts(cfg.accounts@),
            texts(out@) == eligible(all.take(i as int), allowed),
        decreases accounts.len() - i,
    {
        let acc = &accounts[i];
        let ghost before = out@;
        proof {
            assert(all.take(i + 1).drop_last() =~= all.take(i as int));
            assert(all.take(i + 1).last() == acc.tree());
        }
        if is_usable(acc) && is_permitted(acc, &cfg.accounts) {
            match acc.str_of("uid") {
                Some(u) => {
                    out.push(u.to_owned());
                    assert(texts(out@) =~= texts(before).push(u@));
                },
                None => {},
            }
        }
        i = i + 1;
    }
    assert(all.take(accounts@.len() as int) =~= all);
    out
}

/// How many accounts need not be logged in again.
pub fn count_usable(accounts: &Vec<Json>) -> (r: usize)
    ensures
        r == usable_count(trees(accounts@)),
        r <= accounts@.len(),
{
    let ghost all = trees(accounts@);
    let mut n: usize = 0;
    let mut i: usize = 0;
    assert(all.take(0) =~= Seq::<Tree>::empty());
    while i < accounts.len()
        invariant
            i <= accounts.len(),
            n <= i,
            all == trees(accounts@),
            n == usable_count(all.take(i as int)),
        decreases accounts.len() - i,
    {
        proof {
            assert(all.take(i + 1).drop_last() =~= all.take(i as int));
            assert(all.take(i + 1).last() == accounts@[i as int].tree());
        }
        if is_usable(&accounts[i]) {
            n = n + 1;
        }
        i = i + 1;
    }
    assert(all.take(accounts@.len() as int) =~= all);
    n
}

/// Whether an account can be used under the identifier `uid`.
pub open spec fn answers_to(acc: Tree, uid: Seq<char>) -> bool {
    acc.text_of("uid"@) == Some(uid) && usable(acc)
}

/// The first account that can be used under the identifier `uid`.
pub open spec fn found(accounts: Seq<Tree>, uid: Seq<char>) -> Option<Tree>
    decreases accounts.len(),
{
    if accounts.len() == 0 {
        None
    } else if answers_to(accounts[0], uid) {
        Some(accounts[0])
    } else {
        found(accounts.skip(1), uid)
    }
}

/// The first account that can be used under the identifier `uid`.
pub fn find_usable(accounts: &Vec<Json>, uid: &str) -> (r: Option<Json>)
    ensures
        match r {
            Some(a) => found(trees(accounts@), uid@) == Some(a.tree()),
            None => found(trees(accounts@), uid@) is None,
        },
{
    let ghost all = trees(accounts@);
    let mut i: usize = 0;
    assert(all.skip(0) =~= all);
    while i < accounts.len()
        invariant
            i <= accounts.len(),
            all == trees(accounts@),
            found(all, uid@) == found(all.skip(i as int), uid@),
        decreases accounts.len() - i,
    {
        let acc = &accounts[i];
        proof {
            assert(all.skip(i as int)[0] == acc.tree());
            assert(all.skip(i as int).skip(1) =~= all.skip(i + 1));
        }
        let named = match acc.str_of("uid") {
            Some(u) => same(u, uid),
            None => false,
        };
        if named && is_usable(acc) {
            return Some(acc.copy());
        }
        i = i + 1;
    }
    None
}

/// Whether the token of an account is to be renewed before it is used.
pub open spec fn stale(acc: Tree, now_ms: int) -> bool {
    (match acc.int_of("expiresAt"@) {
        Some(t) => t as int,
        None => 0int,
    }) - now_ms < REFRESH_MARGIN_MS
}

/// Whether the token of an account is to be renewed before it is used at the time
/// `now_ms`.
pub fn needs_refresh(acc: &Json, now_ms: i64) -> (r: bool)
    ensures
        r == stale(acc.tree(), now_ms as int),
{
    let exp: i64 = match acc.int_of("expiresAt") {
        Some(t) => t,
        None => 0,
    };
    (exp as i128) - (now_ms as i128) < REFRESH_MARGIN_MS as i128
}

/// How renewing a token ended.
pub enum Refresh {
    /// There was no need.
    NotNeeded,
    /// It took too long.
    TimedOut,
    /// The account as it is now.
    Done(Json),
}

/// What became of an account that was to be used.
pub struct Settled {
    /// The account, to be stored and used.
    pub account: Option<Json>,
    /// Whether the account counts as failed.
    pub failed: bool,
}

/// The account that is used, if any, given how renewing its token ended.
pub open spec fn in_use(acc: Json, refresh: Refresh) -> Option<Json> {
    match refresh {
        Refresh::NotNeeded => Some(acc),
        Refresh::TimedOut => None,
        Refresh::Done(now) => if usable(now.tree()) {
            Some(now)
        } else {
            None
        },
    }
}

/// Decides whether an account is used, given how renewing its token ended.
pub fn settle(acc: Json, refresh: Refresh) -> (r: Settled)
    ensures
        r.account == in_use(acc, refresh),
        r.failed <==> r.account is None,
{
    match refresh {
        Refresh::NotNeeded => Settled { account: Some(acc), failed: false },
        Refresh::TimedOut => Settled { account: None, failed: true },
        Refresh::Done(now) => if is_usable(&now) {
            Settled { account: Some(now), failed: false }
        } else {
            Settled { account: None, failed: true }
        },
    }
}

/// What taking an account has come to so far.
pub enum Take {
    /// There is none to be taken.
    Nobody,
    /// The token of this account is to be renewed first.
    Stale(String, Json),
    /// This account is used as it is.
    Fresh(String, Json),
}

/// The first of the identifiers `uids` that an account can be used under, and that
/// account.
pub open spec fn first_usable(uids: Seq<Seq<char>>, accounts: Seq<Tree>) -> Option<
    (Seq<char>, Tree),
>
    decreases uids.len(),
{
    if uids.len() == 0 {
        None
    } else {
        match found(accounts, uids[0]) {
            Some(acc) => Some((uids[0], acc)),
            None => first_usable(uids.skip(1), accounts),
        }
    }
}

/// The account that is taken at the time `now`: of those that are not left out, from
/// the cursor on, the first that can be used.
pub open spec fn picked(turns: Seq<Turn>, cursor: int, now: int, accounts: Seq<Tree>) -> Option<
    (Seq<char>, Tree),
> {
    first_usable(free(turns, cursor, turns.len(), now), accounts)
}

/// What taking an account comes to, given the account that is taken.
pub open spec fn taking(pick: Option<(Seq<char>, Tree)>, now_ms: int, r: Take) -> bool {
    match pick {
        None => r is Nobody,
        Some((uid, acc)) => match r {
            Take::Nobody => false,
            Take::Stale(u, a) => stale(acc, now_ms) && u@ == uid && a.tree() == acc,
            Take::Fresh(u, a) => !stale(acc, now_ms) && u@ == uid && a.tree() == acc,
        },
    }
}

/// Takes the account whose turn it is, of the stored `accounts`, at the time `now` in
/// nanoseconds, which is `now_ms` on the clock. One that is left out, or that needs a
/// new login, is passed over. An account whose token is about to expire is to be
/// renewed before it is used.
pub fn take_account(pool: &mut Pool, accounts: &Vec<Json>, now: u64, now_ms: i64) -> (r: Take)
    ensures
        taking(
            picked(old(pool).turns(), old(pool).next() as int, now as int, trees(accounts@)),
            now_ms as int,
            r,
        ),
        final(pool).turns() == old(pool).turns(),
        final(pool).next() == following(old(pool).turns().len(), old(pool).next()),
{
    let uids = pool.free_uids(now);
    let ghost all = texts(uids@);
    let ghost stored = trees(accounts@);
    let mut i: usize = 0;
    assert(all.skip(0) =~= all);
    while i < uids.len()
        invariant
            i <= uids.len(),
            all == texts(uids@),
            stored == trees(accounts@),
            first_usable(all, stored) == first_usable(all.skip(i as int), stored),
            all == free(
                old(pool).turns(),
                old(pool).next() as int,
                old(pool).turns().len(),
                now as int,
            ),
            pool.turns() == old(pool).turns(),
            pool.next() == following(old(pool).turns().len(), old(pool).next()),
        decreases uids.len() - i,
    {
        let uid = uids[i].as_str();
        proof {
            assert(all.skip(i as int)[0] == uid@);
            assert(all.skip(i as int).skip(1) =~= all.skip(i + 1));
        }
        match find_usable(accounts, uid) {
            Some(acc) => {
                return if needs_refresh(&acc, now_ms) {
                    Take::Stale(uid.to_owned(), acc)
                } else {
                    Take::Fresh(uid.to_owned(), acc)
                };
            },
            None => {},
        }
        i = i + 1;
    }
    Take::Nobody
}

/// Where an account is found, it can be used under the identifier.
proof fn lemma_found(accounts: Seq<Tree>, uid: Seq<char>)
    ensures
        match found(accounts, uid) {
            Some(acc) => accounts.contains(acc) && answers_to(acc, uid),
            None => forall|i: int|
                0 <= i < accounts.len() ==> !answers_to(#[trigger] accounts[i], uid),
        },
    decreases accounts.len(),
{
    if accounts.len() > 0 {
        let rest = accounts.skip(1);
        lemma_found(rest, uid);
        if answers_to(accounts[0], uid) {
            assert(accounts.contains(accounts[0]));
        } else {
            match found(rest, uid) {
                Some(acc) => {
                    let k = choose|k: int| 0 <= k < rest.len() && rest[k] == acc;
                    assert(accounts[k + 1] == acc);
                },
                None => {
                    assert forall|i: int| 0 <= i < accounts.len() implies !answers_to(
                        #[trigger] accounts[i],
                        uid,
                    ) by {
                        if i > 0 {
                            assert(rest[i - 1] == accounts[i]);
                        }
                    }
                },
            }
        }
    }
}

/// Where an identifier is picked, it is one of those given, and where none is, none of
/// them has an account that can be used.
proof fn lemma_first_usable(uids: Seq<Seq<char>>, accounts: Seq<Tree>)
    ensures
        match first_usable(uids, accounts) {
            Some((uid, acc)) => uids.contains(uid) && found(accounts, uid) == Some(acc),
            None => forall|uid: Seq<char>|
                #![trigger uids.contains(uid)]
                uids.contains(uid) ==> found(accounts, uid) is None,
        },
    decreases uids.len(),
{
    if uids.len() > 0 {
        let rest = uids.skip(1);
        lemma_first_usable(rest, accounts);
        if found(accounts, uids[0]) is Some {
            assert(uids.contains(uids[0]));
        } else {
            match first_usable(rest, accounts) {
                Some((uid, acc)) => {
                    let k = choose|k: int| 0 <= k < rest.len() && rest[k] == uid;
                    assert(uids[k + 1] == uid);
                },
                None => {
                    assert forall|uid: Seq<char>|
                        #![trigger uids.contains(uid)]
                        uids.contains(uid) implies found(accounts, uid) is None by {
                        let k = choose|k: int| 0 <= k < uids.len() && uids[k] == uid;
                        if k > 0 {
                            assert(rest[k - 1] == uid);
                            assert(rest.contains(uid));
                        }
                    }
                },
            }
        }
    }
}

/// Whether the turn `t` has an account among `accounts` that can be used at the time
/// `now`.
pub open spec fn healthy(t: Turn, now: int, accounts: Seq<Tree>) -> bool {
    !cooling(t, now) && exists|i: int|
        0 <= i < accounts.len() && answers_to(#[trigger] accounts[i], t.uid)
}

/// Nobody is taken only where no account of the pool is healthy, and who is taken is:
/// an account that failed lately or needs a new login takes no part.
pub proof fn healthy_accounts_are_taken(
    turns: Seq<Turn>,
    cursor: int,
    now: int,
    accounts: Seq<Tree>,
)
    requires
        0 <= cursor,
    ensures
        picked(turns, cursor, now, accounts) is None <==> forall|k: int|
            0 <= k < turns.len() ==> !healthy(#[trigger] turns[k], now, accounts),
        picked(turns, cursor, now, accounts) matches Some((uid, acc)) ==> accounts.contains(acc)
            && answers_to(acc, uid) && exists|k: int|
            0 <= k < turns.len() && turns[k].uid == uid && healthy(
                #[trigger] turns[k],
                now,
                accounts,
            ),
{
    let uids = free(turns, cursor, turns.len(), now);
    lemma_first_usable(uids, accounts);
    match picked(turns, cursor, now, accounts) {
        Some((uid, acc)) => {
            lemma_found(accounts, uid);
            free_accounts_are_listed(turns, cursor, now, uid);
            let k = choose|k: int|
                0 <= k < turns.len() && turns[k].uid == uid && !cooling(#[trigger] turns[k], now);
            let i = choose|i: int| 0 <= i < accounts.len() && accounts[i] == acc;
            assert(answers_to(accounts[i], uid));
            assert(healthy(turns[k], now, accounts));
        },
        None => {
            assert forall|k: int| 0 <= k < turns.len() implies !healthy(
                #[trigger] turns[k],
                now,
                accounts,
            ) by {
                if !cooling(turns[k], now) {
                    free_accounts_are_listed(turns, cursor, now, turns[k].uid);
                    assert(uids.contains(turns[k].uid));
                    lemma_found(accounts, turns[k].uid);
                }
            }
        },
    }
}

/// Healthy accounts are taken in turn: the one at the cursor is taken if it is healthy, so
/// that as many calls as there are accounts reach each that is.
pub proof fn healthy_accounts_take_turns(
    turns: Seq<Turn>,
    cursor: int,
    now: int,
    accounts: Seq<Tree>,
    j: int,
)
    requires
        0 <= cursor,
        0 <= j < turns.len(),
        healthy(turns[j], now, accounts),
    ensures
        cursor % (turns.len() as int) == j ==> (picked(turns, cursor, now, accounts) matches Some(
            (uid, _),
        ) && uid == turns[j].uid),
        exists|i: int|
            0 <= i < turns.len() && (#[trigger] picked(turns, cursor + i, now, accounts) matches Some(
                (uid, _),
            ) && uid == turns[j].uid),
{
    let n = turns.len() as int;
    lemma_reached(cursor, j, n);
    let i = choose|i: int| 0 <= i < n && #[trigger] ((cursor + i) % n) == j;
    lemma_found(accounts, turns[j].uid);
    assert(free(turns, cursor + i, turns.len(), now)[0] == turns[j].uid);
    assert(picked(turns, cursor + i, now, accounts) matches Some((uid, _)) && uid == turns[j].uid);
    if cursor % n == j {
        assert(free(turns, cursor, turns.len(), now)[0] == turns[j].uid);
    }
}

/// An account that failed is not taken before its time is over.
pub proof fn failed_account_is_not_taken(
    turns: Seq<Turn>,
    cursor: int,
    uid: Seq<char>,
    at: int,
    now: int,
    accounts: Seq<Tree>,
)
    requires
        0 <= cursor,
        now < at + COOLDOWN,
    ensures
        picked(failed(turns, uid, at), cursor, now, accounts) matches Some((u, _)) ==> u != uid,
{
    healthy_accounts_are_taken(failed(turns, uid, at), cursor, now, accounts);
}

/// Decides whether the account `uid` is used, given how renewing its token ended, and
/// notes at the time `now`, in nanoseconds, if it failed. An account that is used is
/// to be stored.
pub fn use_account(pool: &mut Pool, uid: &str, acc: Json, refresh: Refresh, now: u64) -> (r: Option<
    Json,
>)
    ensures
        final(pool).next() == old(pool).next(),
        r == in_use(acc, refresh),
        final(pool).turns() == if r is Some {
            old(pool).turns()
        } else {
            failed(old(pool).turns(), uid@, now as int)
        },
{
    let settled = settle(acc, refresh);
    if settled.failed {
        pool.mark_failed(uid, now);
    }
    settled.account
}

/// The document of an optional text.
pub open spec fn text_or_null(s: Option<Seq<char>>) -> Tree {
    match s {
        Some(x) => Tree::Text(x),
        None => Tree::Null,
    }
}

/// The document of an optional integer.
pub open spec fn int_or_null(i: Option<i64>) -> Tree {
    match i {
        Some(x) => Tree::Int(x as int),
        None => Tree::Null,
    }
}

/// What is shown of an account.
pub open spec fn account_status(acc: Tree) -> Tree {
    Tree::Dict(
        Map::<Seq<char>, Tree>::empty().insert(
            "uid"@,
            text_or_null(acc.text_of("uid"@)),
        ).insert("nickname"@, text_or_null(acc.text_of("nickname"@))).insert(
            "needs_relogin"@,
            Tree::Bool(!usable(acc)),
        ).insert("expiresAt"@, int_or_null(acc.int_of("expiresAt"@))),
    )
}

/// What is shown of the accounts that are permitted.
pub open spec fn statuses(accounts: Seq<Tree>, allowed: Seq<Seq<char>>) -> Seq<Tree>
    decreases accounts.len(),
{
    if accounts.len() == 0 {
        Seq::empty()
    } else {
        let before = statuses(accounts.drop_last(), allowed);
        if permitted(accounts.last(), allowed) {
            before.push(account_status(accounts.last()))
        } else {
            before
        }
    }
}

/// The text of the member `k`, or `null`.
fn member_text(acc: &Json, k: &str) -> (r: Json)
    ensures
        r.tree() == text_or_null(acc.tree().text_of(k@)),
{
    match acc.str_of(k) {
        Some(s) => Json::text(s),
        None => Json::Null,
    }
}

/// What is shown of an account.
fn show_account(acc: &Json) -> (r: Json)
    ensures
        r.tree() == account_status(acc.tree()),
{
    let mut d = Json::dict();
    d.set("uid", member_text(acc, "uid"));
    d.set("nickname", member_text(acc, "nickname"));
    d.set("needs_relogin", Json::Bool(!is_usable(acc)));
    let expires = match acc.int_of("expiresAt") {
        Some(t) => Json::integer(t),
        None => Json::Null,
    };
    d.set("expiresAt", expires);
    d
}

/// The state of the gateway: whether it is enabled, where it listens, and what is shown
/// of its accounts.
pub open spec fn state_document(enabled: bool, listen: Seq<char>, shown: Seq<Tree>) -> Tree {
    Tree::Dict(
        Map::<Seq<char>, Tree>::empty().insert("enabled"@, Tree::Bool(enabled)).insert(
            "listen"@,
            Tree::Text(listen),
        ).insert("accounts"@, Tree::List(shown)),
    )
}

/// The state of the gateway: its settings and the accounts that it is permitted to
/// use.
pub fn proxy_status(cfg: &ProxyConfig, accounts: &Vec<Json>) -> (r: Json)
    ensures
        r.tree() == state_document(
            cfg.enabled,
            cfg.listen@,
            statuses(trees(accounts@), texts(cfg.accounts@)),
        ),
{
    let ghost all = trees(accounts@);
    let ghost allowed = texts(cfg.accounts@);
    let mut out: Vec<Json> = Vec::new();
    let mut i: usize = 0;
    proof {
        assert(all.take(0) =~= Seq::<Tree>::empty());
        assert(trees(out@) =~= Seq::<Tree>::empty());
    }
    while i < accounts.len()
        invariant
            i <= accounts.len(),
            all == trees(accounts@),
            allowed == texts(cfg.accounts@),
            trees(out@) == statuses(all.take(i as int), allowed),
        decreases accounts.len() - i,
    {
        let acc = &accounts[i];
        let ghost before = out@;
        proof {
            assert(all.take(i + 1).drop_last() =~= all.take(i as int));
            assert(all.take(i + 1).last() == acc.tree());
        }
        if is_permitted(acc, &cfg.accounts) {
            let shown = show_account(acc);
            out.push(shown);
            assert(trees(out@) =~= trees(before).push(shown.tree()));
        }
        i = i + 1;
    }
    assert(all.take(accounts@.len() as int) =~= all);
    let list = Json::List(out);
    assert(list.tree()->List_0 =~= trees(out@));
    let mut d = Json::dict();
    d.set("enabled", Json::Bool(cfg.enabled));
    d.set("listen", Json::text(cfg.listen.as_str()));
    d.set("accounts", list);
    d
}

/// The health of the gateway, given how many accounts need not be logged in again and how
/// many take part.
pub open spec fn health_document(healthy: int, total: int) -> Tree {
    Tree::Dict(
        Map::<Seq<char>, Tree>::empty().insert("ok"@, Tree::Bool(true)).insert(
            "service"@,
            Tree::Text("wb-switch-proxy"@),
        ).insert("healthy"@, Tree::Int(healthy)).insert("total"@, Tree::Int(total)),
    )
}

/// The health of the gateway: how many accounts take part, and how many of all
/// accounts need not be logged in again.
pub fn healthz(total: usize, accounts: &Vec<Json>) -> (r: Json)
    requires
        total <= i64::MAX,
        accounts@.len() <= i64::MAX,
    ensures
        r.tree() == health_document(usable_count(trees(accounts@)) as int, total as int),
{
    let healthy = count_usable(accounts);
    let mut d = Json::dict();
    d.set("ok", Json::Bool(true));
    d.set("service", Json::text("wb-switch-proxy"));
    d.set("healthy", Json::integer(healthy as i64));
    d.set("total", Json::integer(total as i64));
    d
}

/// An account takes part just if it has an identifier, need not be logged in again
/// and is permitted.
pub proof fn eligible_are_usable(accounts: Seq<Tree>, allowed: Seq<Seq<char>>, uid: Seq<char>)
    ensures
        eligible(accounts, allowed).contains(uid) <==> exists|i: int|
            0 <= i < accounts.len() && answers_to(#[trigger] accounts[i], uid) && permitted(
                accounts[i],
                allowed,
            ),
    decreases accounts.len(),
{
    if accounts.len() > 0 {
        let before = accounts.drop_last();
        let acc = accounts.last();
        let e = eligible(accounts, allowed);
        let b = eligible(before, allowed);
        eligible_are_usable(before, allowed, uid);
        let good = answers_to(acc, uid) && permitted(acc, allowed);
        assert(e.contains(uid) <==> b.contains(uid) || good) by {
            if b.contains(uid) {
                let k = choose|k: int| 0 <= k < b.len() && b[k] == uid;
                assert(e[k] == uid);
            }
            if good {
                assert(e[b.len() as int] == uid);
            }
        }
        if good {
            assert(accounts[accounts.len() - 1] == acc);
        }
        if b.contains(uid) {
            let i = choose|i: int|
                0 <= i < before.len() && answers_to(#[trigger] before[i], uid) && permitted(
                    before[i],
                    allowed,
                );
            assert(accounts[i] == before[i]);
        }
        if exists|i: int|
            0 <= i < accounts.len() && answers_to(#[trigger] accounts[i], uid) && permitted(
                accounts[i],
                allowed,
            ) {
            let i = choose|i: int|
                0 <= i < accounts.len() && answers_to(#[trigger] accounts[i], uid) && permitted(
                    accounts[i],
                    allowed,
                );
            if i < before.len() {
                assert(before[i] == accounts[i]);
            }
        }
    }
}

} // verus!
