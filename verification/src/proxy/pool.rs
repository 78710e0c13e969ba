//! The accounts that take part, taken in turn. An account that failed is left out
//! for a while.

use vstd::prelude::*;

use crate::text::{same, texts};

verus! {

/// How long an account that failed is left out, in nanoseconds: two minutes.
pub const COOLDOWN: u64 = 120_000_000_000;

/// An account and when it failed last.
#[verifier::ext_equal]
pub struct Turn {
    pub uid: Seq<char>,
    pub failed: Option<int>,
}

/// Whether an account is left out at the time `now`.
pub open spec fn cooling(t: Turn, now: int) -> bool {
    t.failed matches Some(f) && now < f + COOLDOWN
}

/// The first account from position `start` on, going round, that is not left out, if
/// one is among the next `left`.
pub open spec fn choice(turns: Seq<Turn>, start: int, left: nat, now: int) -> Option<Seq<char>>
    decreases left,
{
    if left == 0 || turns.len() == 0 {
        None
    } else {
        let t = turns[start % (turns.len() as int)];
        if cooling(t, now) {
            choice(turns, start + 1, (left - 1) as nat, now)
        } else {
            Some(t.uid)
        }
    }
}

/// The accounts that are not left out among the next `left` from position `start` on,
/// going round, in this order.
pub open spec fn free(turns: Seq<Turn>, start: int, left: nat, now: int) -> Seq<Seq<char>>
    decreases left,
{
    if left == 0 || turns.len() == 0 {
        Seq::empty()
    } else {
        let t = turns[start % (turns.len() as int)];
        let rest = free(turns, start + 1, (left - 1) as nat, now);
        if cooling(t, now) {
            rest
        } else {
            seq![t.uid] + rest
        }
    }
}

/// The account that is taken at the time `now`.
pub open spec fn taken(turns: Seq<Turn>, cursor: int, now: int) -> Option<Seq<char>> {
    choice(turns, cursor, turns.len(), now)
}

/// Where the next search begins, after one in a pool of `n` accounts that began at
/// `cursor`.
pub open spec fn following(n: nat, cursor: usize) -> int {
    if n == 0 {
        cursor as int
    } else if cursor == usize::MAX {
        0
    } else {
        cursor + 1
    }
}

/// The accounts once `uid` has failed at the time `now`.
pub open spec fn failed(turns: Seq<Turn>, uid: Seq<char>, now: int) -> Seq<Turn> {
    turns.map_values(
        |t: Turn|
            if t.uid == uid {
                Turn { uid: t.uid, failed: Some(now) }
            } else {
                t
            },
    )
}

/// The accounts `uids`, none of which has failed.
pub open spec fn untried(uids: Seq<Seq<char>>) -> Seq<Turn> {
    uids.map_values(|u: Seq<char>| Turn { uid: u, failed: None })
}

/// An account and when it failed last.
struct AccountLease {
    uid: String,
    failed_at: Option<u64>,
}

impl AccountLease {
    spec fn turn(self) -> Turn {
        Turn {
            uid: self.uid@,
            failed: match self.failed_at {
                Some(t) => Some(t as int),
                None => None,
            },
        }
    }
}

/// The accounts that take part.
pub struct Pool {
    leases: Vec<AccountLease>,
    cursor: usize,
}

impl Pool {
    /// The accounts, and when each failed last.
    pub closed spec fn turns(self) -> Seq<Turn> {
        self.leases@.map_values(|l: AccountLease| l.turn())
    }

    /// Where the next search begins.
    pub closed spec fn next(self) -> usize {
        self.cursor
    }

    /// The accounts `uids`.
    pub fn new(uids: Vec<String>) -> (r: Pool)
        ensures
            r.turns() == untried(texts(uids@)),
            r.next() == 0,
    {
        let mut leases: Vec<AccountLease> = Vec::new();
        let mut i: usize = 0;
        while i < uids.len()
            invariant
                i <= uids.len(),
                leases@.len() == i,
                forall|k: int|
                    0 <= k < i ==> (#[trigger] leases@[k]).turn() == (Turn {
                        uid: uids@[k]@,
                        failed: None,
                    }),
            decreases uids.len() - i,
        {
            leases.push(AccountLease { uid: uids[i].as_str().to_owned(), failed_at: None });
            i = i + 1;
        }
        let r = Pool { leases, cursor: 0 };
        assert(r.turns() =~= untried(texts(uids@)));
        r
    }

    /// How many accounts take part.
    pub fn len(&self) -> (r: usize)
        ensures
            r == self.turns().len(),
    {
        self.leases.len()
    }

    /// Takes the account whose turn it is at the time `now`, in nanoseconds; none if
    /// all are left out.
    pub fn next_uid(&mut self, now: u64) -> (r: Option<String>)
        ensures
            match r {
                Some(u) => taken(old(self).turns(), old(self).next() as int, now as int) == Some(
                    u@,
                ),
                None => taken(old(self).turns(), old(self).next() as int, now as int) is None,
            },
            final(self).turns() == old(self).turns(),
            final(self).next() == following(old(self).turns().len(), old(self).next()),
    {
        let uids = self.free_uids(now);
        proof {
            lemma_choice_is_first(
                old(self).turns(),
                old(self).next() as int,
                old(self).turns().len(),
                now as int,
            );
            assert(texts(uids@).len() == uids@.len());
        }
        if uids.len() == 0 {
            None
        } else {
            assert(texts(uids@)[0] == uids@[0]@);
            Some(uids[0].as_str().to_owned())
        }
    }

    /// The accounts that are not left out at the time `now`, in nanoseconds: first the
    /// one whose turn it is, then the others in the order in which they follow. The
    /// turn passes on.
    pub fn free_uids(&mut self, now: u64) -> (r: Vec<String>)
        ensures
            texts(r@) == free(
                old(self).turns(),
                old(self).next() as int,
                old(self).turns().len(),
                now as int,
            ),
            final(self).turns() == old(self).turns(),
            final(self).next() == following(old(self).turns().len(), old(self).next()),
    {
        let mut out: Vec<String> = Vec::new();
        assert(texts(out@) =~= Seq::<Seq<char>>::empty());
        let n = self.leases.len();
        if n == 0 {
            return out;
        }
        let start = self.cursor;
        self.cursor = start.wrapping_add(1);
        let ghost turns = self.turns();
        let ghost all = free(turns, start as int, n as nat, now as int);
        let first = start % n;
        let mut i: usize = 0;
        assert(texts(out@) + all =~= all);
        while i < n
            invariant
                n == self.leases.len(),
                n > 0,
                i <= n,
                first == start % n,
                first < n,
                turns == self.turns(),
                turns.len() == n,
                all == texts(out@) + free(turns, start + i, (n - i) as nat, now as int),
                self.turns() == old(self).turns(),
                self.next() == following(old(self).turns().len(), old(self).next()),
                start == old(self).next(),
            decreases n - i,
        {
            let idx = if i < n - first {
                first + i
            } else {
                i - (n - first)
            };
            let ghost before = texts(out@);
            let ghost rest = free(turns, start + i + 1, (n - i - 1) as nat, now as int);
            proof {
                lemma_round(start as int, i as int, n as int);
                assert(turns[idx as int] == self.leases@[idx as int].turn());
            }
            let resting = match self.leases[idx].failed_at {
                Some(t) => now < t || now - t < COOLDOWN,
                None => false,
            };
            if !resting {
                let uid = self.leases[idx].uid.as_str().to_owned();
                out.push(uid);
                proof {
                    assert(texts(out@) =~= before.push(uid@));
                    assert(before + (seq![uid@] + rest) =~= texts(out@) + rest);
                }
            }
            i = i + 1;
        }
        assert(all =~= texts(out@));
        out
    }

    /// Notes that `uid` failed at the time `now`, in nanoseconds.
    pub fn mark_failed(&mut self, uid: &str, now: u64)
        ensures
            final(self).turns() == failed(old(self).turns(), uid@, now as int),
            final(self).next() == old(self).next(),
    {
        let ghost turns = self.turns();
        let mut leases: Vec<AccountLease> = Vec::new();
        let mut i: usize = 0;
        while i < self.leases.len()
            invariant
                i <= self.leases.len(),
                leases@.len() == i,
                turns == self.turns(),
                self.turns() == old(self).turns(),
                self.next() == old(self).next(),
                forall|k: int|
                    0 <= k < i ==> (#[trigger] leases@[k]).turn() == failed(
                        turns,
                        uid@,
                        now as int,
                    )[k],
            decreases self.leases.len() - i,
        {
            let lease = &self.leases[i];
            assert(turns[i as int] == lease.turn());
            let failed_at = if same(lease.uid.as_str(), uid) {
                Some(now)
            } else {
                lease.failed_at
            };
            leases.push(AccountLease { uid: lease.uid.as_str().to_owned(), failed_at });
            i = i + 1;
        }
        self.leases = leases;
        assert(self.turns() =~= failed(turns, uid@, now as int));
    }
}

/// The position `i` places after `start`, going round.
proof fn lemma_round(start: int, i: int, n: int)
    requires
        0 <= start,
        0 <= i < n,
    ensures
        (start + i) % n == if i < n - start % n {
            start % n + i
        } else {
            i - (n - start % n)
        },
{
    vstd::arithmetic::div_mod::lemma_fundamental_div_mod(start, n);
    let q = start / n;
    let s = start % n;
    assert(start == n * q + s);
    if i < n - s {
        assert(start + i == q * n + (s + i)) by (nonlinear_arith)
            requires
                start == n * q + s,
        ;
        vstd::arithmetic::div_mod::lemma_fundamental_div_mod_converse(start + i, n, q, s + i);
    } else {
        assert(start + i == (q + 1) * n + (i - (n - s))) by (nonlinear_arith)
            requires
                start == n * q + s,
        ;
        vstd::arithmetic::div_mod::lemma_fundamental_div_mod_converse(
            start + i,
            n,
            q + 1,
            i - (n - s),
        );
    }
}

/// The account that is taken is the first of those that are not left out.
proof fn lemma_choice_is_first(turns: Seq<Turn>, start: int, left: nat, now: int)
    ensures
        match choice(turns, start, left, now) {
            Some(u) => free(turns, start, left, now).len() > 0 && free(turns, start, left, now)[0]
                == u,
            None => free(turns, start, left, now).len() == 0,
        },
    decreases left,
{
    if left > 0 && turns.len() > 0 {
        if cooling(turns[start % (turns.len() as int)], now) {
            lemma_choice_is_first(turns, start + 1, (left - 1) as nat, now);
        }
    }
}

/// What is listed is just what is not left out among those that were looked at.
proof fn lemma_free(turns: Seq<Turn>, start: int, left: nat, now: int, uid: Seq<char>)
    requires
        turns.len() > 0,
        0 <= start,
    ensures
        free(turns, start, left, now).contains(uid) <==> exists|i: int|
            0 <= i < left && turns[#[trigger] ((start + i) % (turns.len() as int))].uid == uid
                && !cooling(turns[(start + i) % (turns.len() as int)], now),
    decreases left,
{
    if left > 0 {
        let n = turns.len() as int;
        let t = turns[start % n];
        let rest = free(turns, start + 1, (left - 1) as nat, now);
        let all = free(turns, start, left, now);
        lemma_free(turns, start + 1, (left - 1) as nat, now, uid);
        if all.contains(uid) {
            let k = choose|k: int| 0 <= k < all.len() && all[k] == uid;
            if !cooling(t, now) && k == 0 {
                assert((start + 0) % n == start % n);
            } else {
                if cooling(t, now) {
                    assert(rest[k] == uid);
                } else {
                    assert(rest[k - 1] == uid);
                }
                let i = choose|i: int|
                    0 <= i < left - 1 && turns[#[trigger] ((start + 1 + i) % n)].uid == uid
                        && !cooling(turns[(start + 1 + i) % n], now);
                assert((start + (i + 1)) % n == (start + 1 + i) % n);
            }
        }
        if exists|i: int|
            0 <= i < left && turns[#[trigger] ((start + i) % n)].uid == uid && !cooling(
                turns[(start + i) % n],
                now,
            ) {
            let i = choose|i: int|
                0 <= i < left && turns[#[trigger] ((start + i) % n)].uid == uid && !cooling(
                    turns[(start + i) % n],
                    now,
                );
            if i == 0 {
                assert(all[0] == uid);
            } else {
                assert((start + 1 + (i - 1)) % n == (start + i) % n);
                assert(rest.contains(uid));
                let k = choose|k: int| 0 <= k < rest.len() && rest[k] == uid;
                if cooling(t, now) {
                    assert(all[k] == uid);
                } else {
                    assert(all[k + 1] == uid);
                }
            }
        }
    }
}

/// Going round once lists every account that is not left out, and no other.
pub proof fn free_accounts_are_listed(turns: Seq<Turn>, cursor: int, now: int, uid: Seq<char>)
    requires
        0 <= cursor,
    ensures
        free(turns, cursor, turns.len(), now).contains(uid) <==> exists|k: int|
            0 <= k < turns.len() && turns[k].uid == uid && !cooling(#[trigger] turns[k], now),
{
    if turns.len() > 0 {
        let n = turns.len() as int;
        lemma_free(turns, cursor, turns.len(), now, uid);
        if free(turns, cursor, turns.len(), now).contains(uid) {
            let i = choose|i: int|
                0 <= i < n && turns[#[trigger] ((cursor + i) % n)].uid == uid && !cooling(
                    turns[(cursor + i) % n],
                    now,
                );
            vstd::arithmetic::div_mod::lemma_mod_bound(cursor + i, n);
            assert(!cooling(turns[(cursor + i) % n], now));
        }
        if exists|k: int|
            0 <= k < turns.len() && turns[k].uid == uid && !cooling(#[trigger] turns[k], now) {
            let k = choose|k: int|
                0 <= k < turns.len() && turns[k].uid == uid && !cooling(#[trigger] turns[k], now);
            lemma_reached(cursor, k, n);
            let i = choose|i: int| 0 <= i < n && #[trigger] ((cursor + i) % n) == k;
            assert(turns[(cursor + i) % n].uid == uid);
        }
    }
}

/// What is found is an account that is not left out, and where none is found, all
/// that were looked at are left out.
proof fn lemma_choice(turns: Seq<Turn>, start: int, left: nat, now: int)
    requires
        turns.len() > 0,
        0 <= start,
    ensures
        match choice(turns, start, left, now) {
            Some(u) => exists|k: int|
                0 <= k < turns.len() && turns[k].uid == u && !cooling(#[trigger] turns[k], now),
            None => forall|i: int|
                0 <= i < left ==> cooling(turns[#[trigger] ((start + i) % (turns.len() as int))], now),
        },
    decreases left,
{
    if left > 0 {
        let n = turns.len() as int;
        vstd::arithmetic::div_mod::lemma_mod_bound(start, n);
        let t = turns[start % n];
        if cooling(t, now) {
            lemma_choice(turns, start + 1, (left - 1) as nat, now);
            if choice(turns, start, left, now) is None {
                assert forall|i: int| 0 <= i < left implies cooling(
                    turns[#[trigger] ((start + i) % n)],
                    now,
                ) by {
                    if i > 0 {
                        assert((start + 1) + (i - 1) == start + i);
                        assert(cooling(turns[((start + 1) + (i - 1)) % n], now));
                    }
                }
            }
        }
    }
}

/// Every position is reached by going round once.
pub proof fn lemma_reached(start: int, j: int, n: int)
    requires
        0 <= start,
        0 <= j < n,
    ensures
        exists|i: int| 0 <= i < n && #[trigger] ((start + i) % n) == j,
{
    let s = start % n;
    vstd::arithmetic::div_mod::lemma_mod_bound(start, n);
    let i = if j >= s {
        j - s
    } else {
        j - s + n
    };
    lemma_round(start, i, n);
    assert((start + i) % n == j);
}

/// An account is found just if one is not left out, and the one that is found is not.
pub proof fn taken_when_one_is_free(turns: Seq<Turn>, cursor: int, now: int)
    requires
        0 <= cursor,
    ensures
        taken(turns, cursor, now) is None <==> forall|k: int|
            0 <= k < turns.len() ==> cooling(#[trigger] turns[k], now),
        taken(turns, cursor, now) matches Some(u) ==> exists|k: int|
            0 <= k < turns.len() && turns[k].uid == u && !cooling(#[trigger] turns[k], now),
{
    if turns.len() > 0 {
        let n = turns.len() as int;
        lemma_choice(turns, cursor, turns.len(), now);
        if taken(turns, cursor, now) is None {
            assert forall|k: int| 0 <= k < n implies cooling(#[trigger] turns[k], now) by {
                lemma_reached(cursor, k, n);
                let i = choose|i: int| 0 <= i < n && #[trigger] ((cursor + i) % n) == k;
                assert(cooling(turns[(cursor + i) % n], now));
            }
        }
    }
}

/// Accounts that have not failed are taken in turn: the account at the cursor first,
/// so that as many calls as there are accounts reach each of them.
pub proof fn accounts_are_taken_in_turn(turns: Seq<Turn>, cursor: int, now: int)
    requires
        turns.len() > 0,
        0 <= cursor,
        forall|k: int| 0 <= k < turns.len() ==> !cooling(#[trigger] turns[k], now),
    ensures
        taken(turns, cursor, now) == Some(turns[cursor % (turns.len() as int)].uid),
        forall|j: int|
            0 <= j < turns.len() ==> exists|i: int|
                0 <= i < turns.len() && taken(turns, #[trigger] (cursor + i), now) == Some(
                    (#[trigger] turns[j]).uid,
                ),
{
    let n = turns.len() as int;
    vstd::arithmetic::div_mod::lemma_mod_bound(cursor, n);
    assert forall|j: int| 0 <= j < n implies exists|i: int|
        0 <= i < n && taken(turns, #[trigger] (cursor + i), now) == Some(
            (#[trigger] turns[j]).uid,
        ) by {
        lemma_reached(cursor, j, n);
        let i = choose|i: int| 0 <= i < n && #[trigger] ((cursor + i) % n) == j;
        assert(!cooling(turns[(cursor + i) % n], now));
        assert(taken(turns, cursor + i, now) == Some(turns[j].uid));
    }
}

/// An account that failed is not taken before its time is over.
pub proof fn failed_account_is_left_out(
    turns: Seq<Turn>,
    cursor: int,
    uid: Seq<char>,
    at: int,
    now: int,
)
    requires
        0 <= cursor,
        now < at + COOLDOWN,
    ensures
        taken(failed(turns, uid, at), cursor, now) != Some(uid),
{
    let after = failed(turns, uid, at);
    taken_when_one_is_free(after, cursor, now);
    if taken(after, cursor, now) == Some(uid) {
        let k = choose|k: int|
            0 <= k < after.len() && after[k].uid == uid && !cooling(#[trigger] after[k], now);
        assert(after[k].uid == turns[k].uid);
    }
}

/// Once its time is over, an account that failed counts again as one that did not.
pub proof fn failed_account_returns(
    turns: Seq<Turn>,
    uid: Seq<char>,
    at: int,
    now: int,
    k: int,
)
    requires
        0 <= k < turns.len(),
        turns[k].uid == uid,
        at + COOLDOWN <= now,
    ensures
        !cooling(failed(turns, uid, at)[k], now),
{
}

/// The failure of one account leaves the others as they are.
pub proof fn failure_concerns_one_account(turns: Seq<Turn>, uid: Seq<char>, at: int, k: int)
    requires
        0 <= k < turns.len(),
        turns[k].uid != uid,
    ensures
        failed(turns, uid, at).len() == turns.len(),
        failed(turns, uid, at)[k] == turns[k],
{
}

} // verus!
