//! In which order accounts are taken, and for how long one that failed is left out.

use vstd::prelude::*;

use crate::json::Tree;
use super::account::{answers_to, first_usable, found, healthy, picked};
use super::pool::{choice, cooling, failed, following, free, taken, untried, Turn};

verus! {

/// An account that failed is left out for two minutes from its latest failure, and not a
/// moment longer; one that did not fail is not left out.
pub proof fn failure_counts_for_two_minutes(turns: Seq<Turn>, uid: Seq<char>, at: int, k: int, now: int)
    requires
        0 <= k < turns.len(),
    ensures
        turns[k].uid == uid ==> (cooling(failed(turns, uid, at)[k], now) <==> now < at
            + 120_000_000_000),
        turns[k].uid != uid ==> failed(turns, uid, at)[k] == turns[k],
        turns[k].failed is None ==> !cooling(turns[k], now),
        failed(turns, uid, at).len() == turns.len(),
        failed(turns, uid, at)[k].uid == turns[k].uid,
{
}

/// An account that is left out is so at every earlier time since it failed, and one that is
/// not stays so.
pub proof fn accounts_come_back_once(t: Turn, earlier: int, later: int)
    requires
        earlier <= later,
    ensures
        cooling(t, later) ==> cooling(t, earlier),
{
}

/// A new pool has the accounts given, in order, and none of them has failed.
pub proof fn new_pool_is_untried(uids: Seq<Seq<char>>, k: int, now: int)
    requires
        0 <= k < uids.len(),
    ensures
        untried(uids).len() == uids.len(),
        untried(uids)[k].uid == uids[k],
        !cooling(untried(uids)[k], now),
{
}

/// The turn passes on by one account with every call, whoever was taken; in an empty pool it
/// stays.
pub proof fn turn_passes_on(n: nat, cursor: usize)
    ensures
        n == 0 ==> following(n, cursor) == cursor,
        n > 0 && cursor < usize::MAX ==> following(n, cursor) == cursor + 1,
        n > 0 && cursor == usize::MAX ==> following(n, cursor) == 0,
{
}

/// The account that is taken is the first from the cursor on, going round, that is not left
/// out.
pub proof fn first_free_account_is_taken(turns: Seq<Turn>, cursor: int, now: int, i: int)
    requires
        0 <= cursor,
        0 <= i < turns.len(),
        !cooling(turns[(cursor + i) % (turns.len() as int)], now),
        forall|j: int|
            0 <= j < i ==> cooling(turns[#[trigger] ((cursor + j) % (turns.len() as int))], now),
    ensures
        taken(turns, cursor, now) == Some(turns[(cursor + i) % (turns.len() as int)].uid),
{
    lemma_first_choice(turns, cursor, turns.len(), now, i);
}

/// The first of the next accounts.
proof fn lemma_first_choice(turns: Seq<Turn>, start: int, left: nat, now: int, i: int)
    requires
        0 <= start,
        turns.len() > 0,
        0 <= i < left,
        !cooling(turns[(start + i) % (turns.len() as int)], now),
        forall|j: int|
            0 <= j < i ==> cooling(turns[#[trigger] ((start + j) % (turns.len() as int))], now),
    ensures
        choice(turns, start, left, now) == Some(turns[(start + i) % (turns.len() as int)].uid),
    decreases left,
{
    let n = turns.len() as int;
    if i > 0 {
        assert(cooling(turns[(start + 0) % n], now));
        assert((start + 1) + (i - 1) == start + i);
        assert forall|j: int| 0 <= j < i - 1 implies cooling(
            turns[#[trigger] ((start + 1 + j) % n)],
            now,
        ) by {
            assert(start + 1 + j == start + (j + 1));
            assert(cooling(turns[(start + (j + 1)) % n], now));
        }
        lemma_first_choice(turns, start + 1, (left - 1) as nat, now, i - 1);
    }
}

/// The account that is used is the first from the cursor on, going round, that is healthy,
/// and of the stored accounts the first that answers to its identifier.
pub proof fn first_healthy_account_is_picked(
    turns: Seq<Turn>,
    cursor: int,
    now: int,
    accounts: Seq<Tree>,
    i: int,
)
    requires
        0 <= cursor,
        0 <= i < turns.len(),
        healthy(turns[(cursor + i) % (turns.len() as int)], now, accounts),
        forall|j: int|
            0 <= j < i ==> !healthy(
                turns[#[trigger] ((cursor + j) % (turns.len() as int))],
                now,
                accounts,
            ),
    ensures
        picked(turns, cursor, now, accounts) matches Some((uid, acc)) && uid == turns[(cursor + i)
            % (turns.len() as int)].uid && found(accounts, uid) == Some(acc),
{
    lemma_first_healthy(turns, cursor, turns.len(), now, accounts, i);
}

/// Whether an account is found just if one answers.
proof fn lemma_answered(accounts: Seq<Tree>, uid: Seq<char>)
    ensures
        found(accounts, uid) is Some <==> exists|i: int|
            0 <= i < accounts.len() && answers_to(#[trigger] accounts[i], uid),
    decreases accounts.len(),
{
    if accounts.len() > 0 {
        let rest = accounts.skip(1);
        lemma_answered(rest, uid);
        if exists|i: int| 0 <= i < rest.len() && answers_to(#[trigger] rest[i], uid) {
            let i = choose|i: int| 0 <= i < rest.len() && answers_to(#[trigger] rest[i], uid);
            assert(accounts[i + 1] == rest[i]);
        }
        if exists|i: int| 0 <= i < accounts.len() && answers_to(#[trigger] accounts[i], uid) {
            let i = choose|i: int| 0 <= i < accounts.len() && answers_to(#[trigger] accounts[i], uid);
            if i > 0 {
                assert(rest[i - 1] == accounts[i]);
            }
        }
    }
}

/// The first healthy one of the next accounts.
proof fn lemma_first_healthy(
    turns: Seq<Turn>,
    start: int,
    left: nat,
    now: int,
    accounts: Seq<Tree>,
    i: int,
)
    requires
        0 <= start,
        turns.len() > 0,
        0 <= i < left,
        healthy(turns[(start + i) % (turns.len() as int)], now, accounts),
        forall|j: int|
            0 <= j < i ==> !healthy(
                turns[#[trigger] ((start + j) % (turns.len() as int))],
                now,
                accounts,
            ),
    ensures
        first_usable(free(turns, start, left, now), accounts) matches Some((uid, acc)) && uid
            == turns[(start + i) % (turns.len() as int)].uid && found(accounts, uid) == Some(acc),
    decreases left,
{
    let n = turns.len() as int;
    let t = turns[start % n];
    let rest = free(turns, start + 1, (left - 1) as nat, now);
    let all = free(turns, start, left, now);
    lemma_answered(accounts, t.uid);
    if !cooling(t, now) {
        assert(all[0] == t.uid);
        assert(all.skip(1) =~= rest);
    }
    if i > 0 {
        assert(!healthy(turns[(start + 0) % n], now, accounts));
        assert((start + 1) + (i - 1) == start + i);
        assert forall|j: int| 0 <= j < i - 1 implies !healthy(
            turns[#[trigger] ((start + 1 + j) % n)],
            now,
            accounts,
        ) by {
            assert(start + 1 + j == start + (j + 1));
            assert(!healthy(turns[(start + (j + 1)) % n], now, accounts));
        }
        lemma_first_healthy(turns, start + 1, (left - 1) as nat, now, accounts, i - 1);
    }
}

} // verus!
