//! The balance ledger: per-account numeric balances and a charge
//! operation that decrements them.
//!
//! Abstractly a ledger is a map from account key to balance. The balance
//! is signed: a charge stores `balance - amount` unconditionally, even
//! when the result is negative, and charging an absent account is a
//! silent no-op — entries are only ever created by seeding.

use vstd::prelude::*;

verus! {

/// Whether some entry of `s` carries the account key `k`.
spec fn has_key(s: Seq<(String, i128)>, k: Seq<char>) -> bool {
    exists|i: int| 0 <= i < s.len() && (#[trigger] s[i]).0@ == k
}

/// The position of the entry carrying the account key `k`.
spec fn index_of(s: Seq<(String, i128)>, k: Seq<char>) -> int {
    choose|i: int| 0 <= i < s.len() && (#[trigger] s[i]).0@ == k
}

/// No two entries carry the same account key.
spec fn keys_unique(s: Seq<(String, i128)>) -> bool {
    forall|i: int, j: int|
        0 <= i < j < s.len() ==> (#[trigger] s[i]).0@ != (#[trigger] s[j]).0@
}

/// The balance map that a sequence of entries represents.
spec fn map_of(s: Seq<(String, i128)>) -> Map<Seq<char>, int> {
    Map::new(|k: Seq<char>| has_key(s, k), |k: Seq<char>| s[index_of(s, k)].1 as int)
}

/// With unique keys, the entry at position `i` is the one its key maps to.
proof fn lemma_entry_at(s: Seq<(String, i128)>, i: int)
    requires
        keys_unique(s),
        0 <= i < s.len(),
    ensures
        index_of(s, s[i].0@) == i,
        map_of(s).contains_key(s[i].0@),
        map_of(s)[s[i].0@] == s[i].1 as int,
{
    let k = s[i].0@;
    assert(has_key(s, k));
    let j = index_of(s, k);
    assert(0 <= j < s.len() && s[j].0@ == k);
    if i < j {
        assert(s[i].0@ != s[j].0@);
    }
    if j < i {
        assert(s[j].0@ != s[i].0@);
    }
}

/// A key that no entry carries is absent from the represented map.
proof fn lemma_no_key(s: Seq<(String, i128)>, k: Seq<char>)
    requires
        forall|i: int| 0 <= i < s.len() ==> (#[trigger] s[i]).0@ != k,
    ensures
        !map_of(s).contains_key(k),
{
}

/// Replacing the entry at `p` by one with the same key updates exactly
/// that key's balance in the represented map.
proof fn lemma_map_of_update(s: Seq<(String, i128)>, p: int, e: (String, i128))
    requires
        keys_unique(s),
        0 <= p < s.len(),
        e.0@ == s[p].0@,
    ensures
        keys_unique(s.update(p, e)),
        map_of(s.update(p, e)) == map_of(s).insert(e.0@, e.1 as int),
{
    let u = s.update(p, e);
    assert forall|i: int| 0 <= i < u.len() implies (#[trigger] u[i]).0@ == s[i].0@ by {}
    assert(keys_unique(u));
    assert forall|k: Seq<char>| has_key(u, k) implies has_key(s, k) by {
        let i = choose|i: int| 0 <= i < u.len() && (#[trigger] u[i]).0@ == k;
        assert(s[i].0@ == k);
    }
    assert forall|k: Seq<char>| has_key(s, k) implies has_key(u, k) by {
        let i = choose|i: int| 0 <= i < s.len() && (#[trigger] s[i]).0@ == k;
        assert(u[i].0@ == k);
    }
    assert forall|k: Seq<char>| #[trigger]
        map_of(u).contains_key(k) implies map_of(u)[k] == map_of(s).insert(e.0@, e.1 as int)[k] by {
        let i = index_of(u, k);
        assert(0 <= i < u.len() && u[i].0@ == k);
        lemma_entry_at(u, i);
        if k == e.0@ {
            lemma_entry_at(u, p);
            assert(i == p);
        } else {
            assert(i != p);
            lemma_entry_at(s, i);
        }
    }
    assert(map_of(u) =~= map_of(s).insert(e.0@, e.1 as int));
}

/// Appending an entry with a fresh key adds exactly that key to the
/// represented map.
proof fn lemma_map_of_push(s: Seq<(String, i128)>, e: (String, i128))
    requires
        keys_unique(s),
        forall|i: int| 0 <= i < s.len() ==> (#[trigger] s[i]).0@ != e.0@,
    ensures
        keys_unique(s.push(e)),
        map_of(s.push(e)) == map_of(s).insert(e.0@, e.1 as int),
{
    let u = s.push(e);
    assert(keys_unique(u));
    assert forall|k: Seq<char>| #[trigger]
        map_of(u).contains_key(k) implies map_of(u)[k] == map_of(s).insert(e.0@, e.1 as int)[k] by {
        let i = index_of(u, k);
        assert(0 <= i < u.len() && u[i].0@ == k);
        lemma_entry_at(u, i);
        if k == e.0@ {
            lemma_entry_at(u, s.len() as int);
            assert(i == s.len());
        } else {
            assert(i < s.len());
            assert(s[i].0@ == k);
            lemma_entry_at(s, i);
        }
    }
    assert forall|k: Seq<char>| has_key(s, k) implies has_key(u, k) by {
        let i = choose|i: int| 0 <= i < s.len() && (#[trigger] s[i]).0@ == k;
        assert(u[i].0@ == k);
    }
    assert(has_key(u, e.0@)) by {
        assert(u[s.len() as int].0@ == e.0@);
    }
    assert(map_of(u) =~= map_of(s).insert(e.0@, e.1 as int));
}

/// Maps account keys to signed balances; entries are created by seeding
/// and decremented by charges.
pub struct BalanceLedger {
    entries: Vec<(String, i128)>,
}

impl View for BalanceLedger {
    type V = Map<Seq<char>, int>;

    closed spec fn view(&self) -> Map<Seq<char>, int> {
        map_of(self.entries@)
    }
}

impl BalanceLedger {
    /// Each account has at most one entry.
    #[verifier::type_invariant]
    spec fn wf(self) -> bool {
        keys_unique(self.entries@)
    }

    /// An empty ledger.
    pub fn new() -> (r: Self)
        ensures
            r@ == Map::<Seq<char>, int>::empty(),
    {
        let r = BalanceLedger { entries: Vec::new() };
        proof {
            assert(r@ =~= Map::<Seq<char>, int>::empty());
        }
        r
    }

    /// The position of the entry for `account`, if one exists.
    fn find(&self, account: &String) -> (r: Option<usize>)
        ensures
            r matches Some(p) ==> p < self.entries@.len() && self.entries@[p as int].0@
                == account@,
            r is None ==> forall|i: int|
                0 <= i < self.entries@.len() ==> (#[trigger] self.entries@[i]).0@ != account@,
    {
        let n = self.entries.len();
        let mut idx: usize = 0;
        while idx < n
            invariant
                n == self.entries@.len(),
                idx <= n,
                forall|i: int| 0 <= i < idx ==> (#[trigger] self.entries@[i]).0@ != account@,
            decreases n - idx,
        {
            if self.entries[idx].0 == *account {
                return Some(idx);
            }
            idx += 1;
        }
        None
    }

    /// Seed or overwrite the balance for `account`.
    ///
    /// This is the external collaborator's entry point: it is the only
    /// operation that creates a balance entry.
    pub fn set_balance(&mut self, account: String, value: i128)
        ensures
            final(self)@ == old(self)@.insert(account@, value as int),
    {
        proof {
            use_type_invariant(&*self);
        }
        let ghost s = self.entries@;
        let pos = self.find(&account);
        let mut entries: Vec<(String, i128)> = Vec::new();
        std::mem::swap(&mut self.entries, &mut entries);
        match pos {
            Some(p) => {
                proof {
                    lemma_map_of_update(s, p as int, (account, value));
                }
                entries.set(p, (account, value));
            },
            None => {
                proof {
                    lemma_map_of_push(s, (account, value));
                }
                entries.push((account, value));
            },
        }
        std::mem::swap(&mut self.entries, &mut entries);
    }

    /// The balance stored for `account`, if an entry exists.
    pub fn balance_of(&self, account: &String) -> (r: Option<i128>)
        ensures
            r matches Some(b) ==> self@.contains_key(account@) && b as int == self@[account@],
            r is None ==> !self@.contains_key(account@),
    {
        proof {
            use_type_invariant(&*self);
        }
        match self.find(account) {
            Some(p) => {
                proof {
                    lemma_entry_at(self.entries@, p as int);
                }
                Some(self.entries[p].1)
            },
            None => {
                proof {
                    lemma_no_key(self.entries@, account@);
                }
                None
            },
        }
    }

    /// Apply a usage charge to `account`.
    ///
    /// If the account has no entry, nothing changes: no error, no entry
    /// created. If it has one, the stored balance becomes
    /// `balance - amount`, unconditionally — a negative result is stored
    /// as-is and no error is raised for insufficient funds.
    pub fn charge(&mut self, account: String, amount: u128)
        requires
            old(self)@.contains_key(account@) ==> amount <= i128::MAX as u128,
            old(self)@.contains_key(account@) ==> old(self)@[account@] - amount >= i128::MIN,
        ensures
            old(self)@.contains_key(account@) ==> final(self)@ == old(self)@.insert(
                account@,
                old(self)@[account@] - amount,
            ),
            !old(self)@.contains_key(account@) ==> final(self)@ == old(self)@,
    {
        proof {
            use_type_invariant(&*self);
        }
        let ghost s = self.entries@;
        match self.find(&account) {
            Some(p) => {
                proof {
                    lemma_entry_at(s, p as int);
                }
                let balance: i128 = self.entries[p].1;
                let new_balance: i128 = balance - (amount as i128);
                proof {
                    lemma_map_of_update(s, p as int, (account, new_balance));
                }
                let mut entries: Vec<(String, i128)> = Vec::new();
                std::mem::swap(&mut self.entries, &mut entries);
                entries.set(p, (account, new_balance));
                std::mem::swap(&mut self.entries, &mut entries);
            },
            None => {
                proof {
                    lemma_no_key(s, account@);
                }
            },
        }
    }
}

} // verus!
