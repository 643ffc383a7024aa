//! The nonce ledger: the record of every single-use value ever consumed,
//! scoped per user. `claim` is the one operation, and it is atomic by
//! construction: it answers "was this (user, nonce) pair fresh?" and commits
//! the pair in the same step, so two claims of one pair can never both see
//! it fresh.

use vstd::prelude::*;
use crate::strutil::str_eq;

verus! {

/// The ledger of consumed (user, nonce) pairs. Its view is the set of pairs
/// ever claimed; a pair, once present, never leaves.
pub struct NonceLedger {
    used: Vec<(i32, String)>,
}

impl View for NonceLedger {
    type V = Set<(i32, Seq<char>)>;

    closed spec fn view(&self) -> Set<(i32, Seq<char>)> {
        Set::new(
            |p: (i32, Seq<char>)|
                exists|i: int|
                    0 <= i < self.used@.len() && (#[trigger] self.used@[i]).0 == p.0
                        && self.used@[i].1@ == p.1,
        )
    }
}

impl NonceLedger {
    /// An empty ledger: nothing has been claimed yet.
    pub fn new() -> (r: NonceLedger)
        ensures
            r@ == Set::<(i32, Seq<char>)>::empty(),
    {
        let r = NonceLedger { used: Vec::new() };
        proof {
            assert(r@ =~= Set::<(i32, Seq<char>)>::empty());
        }
        r
    }

    /// Whether the pair has been claimed already.
    pub fn contains(&self, user_id: i32, nonce: &str) -> (r: bool)
        ensures
            r == self@.contains((user_id, nonce@)),
    {
        let len = self.used.len();
        let mut i: usize = 0;
        while i < len
            invariant
                0 <= i <= len,
                len == self.used@.len(),
                forall|j: int|
                    0 <= j < i ==> !((#[trigger] self.used@[j]).0 == user_id && self.used@[j].1@
                        == nonce@),
            decreases len - i,
        {
            let entry = &self.used[i];
            if entry.0 == user_id && str_eq(entry.1.as_str(), nonce) {
                return true;
            }
            i = i + 1;
        }
        false
    }

    /// Claims the pair: answers whether it was fresh and, in the same step,
    /// commits it, so a second claim of the same pair is never fresh. The
    /// ledger afterwards holds exactly the old pairs plus this one.
    pub fn claim(&mut self, user_id: i32, nonce: &str) -> (fresh: bool)
        ensures
            fresh == !old(self)@.contains((user_id, nonce@)),
            final(self)@ == old(self)@.insert((user_id, nonce@)),
    {
        if self.contains(user_id, nonce) {
            proof {
                assert(self@ =~= self@.insert((user_id, nonce@)));
            }
            return false;
        }
        let ghost before = self@;
        let ghost old_used = self.used@;
        self.used.push((user_id, String::from_str(nonce)));
        proof {
            let pair = (user_id, nonce@);
            let new_used = self.used@;
            assert(new_used.len() == old_used.len() + 1);
            assert(new_used[old_used.len() as int].0 == user_id);
            assert(new_used[old_used.len() as int].1@ == nonce@);
            assert forall|p: (i32, Seq<char>)| self@.contains(p) implies before.insert(
                pair,
            ).contains(p) by {
                let i = choose|i: int|
                    0 <= i < new_used.len() && (#[trigger] new_used[i]).0 == p.0 && new_used[i].1@
                        == p.1;
                if i < old_used.len() {
                    assert(old_used[i] == new_used[i]);
                    assert(before.contains(p));
                } else {
                    assert(p.0 == user_id && p.1 == nonce@);
                    assert(p == pair);
                }
            }
            assert forall|p: (i32, Seq<char>)| before.insert(pair).contains(p) implies self@.contains(
                p,
            ) by {
                if p == pair {
                    assert((#[trigger] new_used[old_used.len() as int]).0 == p.0
                        && new_used[old_used.len() as int].1@ == p.1);
                } else {
                    assert(before.contains(p));
                    let i = choose|i: int|
                        0 <= i < old_used.len() && (#[trigger] old_used[i]).0 == p.0
                            && old_used[i].1@ == p.1;
                    assert((#[trigger] new_used[i]).0 == p.0 && new_used[i].1@ == p.1);
                }
            }
            assert(self@ =~= before.insert(pair));
        }
        true
    }
}

/// Law: nonce freshness is scoped to one user. Read with `claim`'s contract
/// — the answer is exactly non-membership of the pair, and a claim commits
/// exactly its own pair — this says of a nonce nobody has used: the first
/// claim answers fresh (the premise), an identical second claim answers
/// stale, and the same nonce value under a different user id is exactly as
/// fresh as before, so both users' first claims answer fresh.
pub proof fn lemma_nonce_scoping(contents: Set<(i32, Seq<char>)>, u1: i32, u2: i32, n: Seq<char>)
    requires
        !contents.contains((u1, n)),
        u1 != u2,
    ensures
        contents.insert((u1, n)).contains((u1, n)),
        contents.insert((u1, n)).contains((u2, n)) == contents.contains((u2, n)),
{
}

} // verus!
