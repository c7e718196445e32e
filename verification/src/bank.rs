//! Native-currency balances.
//!
//! The platform's currency-transfer primitive is modelled by an explicit
//! book of account balances.  The view is a total map: an account that was
//! never credited holds zero.  Crediting fails exactly when the recipient's
//! balance would exceed the largest representable amount, which is how the
//! underlying transfer primitive reports failure in this model.

use vstd::prelude::*;

verus! {

/// Some entry of `s` belongs to account `a`.
pub open spec fn acct_has<V>(s: Seq<(u64, V)>, a: u64) -> bool {
    exists|i: int| 0 <= i < s.len() && s[i].0 == a
}

/// The balance recorded for account `a`, zero if none is recorded.
pub open spec fn acct_balance(s: Seq<(u64, u128)>, a: u64) -> u128 {
    if acct_has(s, a) {
        s[choose|i: int| 0 <= i < s.len() && s[i].0 == a].1
    } else {
        0
    }
}

/// No two entries of `s` belong to the same account.
pub open spec fn unique_accts<V>(s: Seq<(u64, V)>) -> bool {
    forall|i: int, j: int|
        0 <= i < s.len() && 0 <= j < s.len() && i != j ==> s[i].0 != s[j].0
}

/// With pairwise-distinct accounts, each entry is the one its account resolves to.
proof fn lemma_unique_balances(s: Seq<(u64, u128)>)
    requires
        unique_accts(s),
    ensures
        forall|i: int|
            0 <= i < s.len() ==> #[trigger] acct_has(s, s[i].0) && acct_balance(s, s[i].0)
                == s[i].1,
{
    assert forall|i: int|
        0 <= i < s.len() implies #[trigger] acct_has(s, s[i].0) && acct_balance(s, s[i].0)
            == s[i].1 by {
        assert(0 <= i < s.len() && s[i].0 == s[i].0);
        assert(acct_has(s, s[i].0));
        let j = choose|j: int| 0 <= j < s.len() && s[j].0 == s[i].0;
        assert(j == i);
    }
}

/// The book of native-currency balances, one entry per credited account.
pub struct Bank {
    accounts: Vec<(u64, u128)>,
}

impl View for Bank {
    type V = Map<u64, u128>;

    closed spec fn view(&self) -> Map<u64, u128> {
        Map::new(|a: u64| true, |a: u64| acct_balance(self.accounts@, a))
    }
}

impl Bank {
    /// The recorded accounts are pairwise distinct.
    pub closed spec fn wf(self) -> bool {
        unique_accts(self.accounts@)
    }

    /// A book in which every account holds zero.
    pub fn new() -> (r: Self)
        ensures
            r.wf(),
            forall|a: u64| r@[a] == 0u128,
    {
        Bank { accounts: Vec::new() }
    }

    /// The index of the entry for account `a`, if one is recorded.
    fn find_index(&self, a: u64) -> (r: Option<usize>)
        ensures
            match r {
                Some(i) => i < self.accounts@.len() && self.accounts@[i as int].0 == a,
                None => !acct_has(self.accounts@, a),
            },
    {
        let n = self.accounts.len();
        let mut i: usize = 0;
        while i < n
            invariant
                n == self.accounts@.len(),
                i <= n,
                forall|j: int| 0 <= j < i ==> self.accounts@[j].0 != a,
            decreases n - i,
        {
            if self.accounts[i].0 == a {
                return Some(i);
            }
            i += 1;
        }
        None
    }

    /// The balance held by account `a`.
    pub fn balance_of(&self, a: u64) -> (r: u128)
        requires
            self.wf(),
        ensures
            r == self@[a],
    {
        match self.find_index(a) {
            Some(i) => {
                let v = self.accounts[i].1;
                proof {
                    lemma_unique_balances(self.accounts@);
                }
                v
            },
            None => 0,
        }
    }

    /// Adds `amount` to account `a`; reports failure on overflow and
    /// then leaves the book untouched.
    pub fn credit(&mut self, a: u64, amount: u128) -> (ok: bool)
        requires
            old(self).wf(),
        ensures
            final(self).wf(),
            ok == (old(self)@[a] + amount <= u128::MAX),
            ok ==> final(self)@ == old(self)@.insert(a, (old(self)@[a] + amount) as u128),
            !ok ==> *final(self) == *old(self),
    {
        let ghost s = self.accounts@;
        match self.find_index(a) {
            Some(i) => {
                let ghost ii = i as int;
                let cur = self.accounts[i].1;
                proof {
                    lemma_unique_balances(s);
                }
                if amount <= u128::MAX - cur {
                    self.accounts.set(i, (a, cur + amount));
                    proof {
                        let s2 = self.accounts@;
                        assert forall|j: int| 0 <= j < s2.len() implies s2[j].0 == s[j].0 by {
                            if j != ii {
                                assert(s2[j] == s[j]);
                            }
                        }
                        assert forall|x: int, y: int|
                            0 <= x < s2.len() && 0 <= y < s2.len() && x != y implies s2[x].0
                                != s2[y].0 by {
                            assert(s[x].0 != s[y].0);
                        }
                        lemma_unique_balances(s2);
                        assert forall|b: u64| #[trigger]
                            acct_balance(s2, b) == old(self)@.insert(
                                a,
                                (acct_balance(s, a) + amount) as u128,
                            )[b] by {
                            if b == a {
                                assert(acct_balance(s2, s2[ii].0) == s2[ii].1);
                            } else {
                                if acct_has(s2, b) {
                                    let j = choose|j: int| 0 <= j < s2.len() && s2[j].0 == b;
                                    assert(j != ii);
                                    assert(s2[j] == s[j]);
                                    assert(acct_balance(s2, s2[j].0) == s2[j].1);
                                    assert(acct_balance(s, s[j].0) == s[j].1);
                                } else {
                                    if acct_has(s, b) {
                                        let j = choose|j: int| 0 <= j < s.len() && s[j].0 == b;
                                        assert(s2[j].0 == b);
                                        assert(acct_has(s2, b));
                                    }
                                }
                            }
                        }
                        assert(self@ =~= old(self)@.insert(a, (old(self)@[a] + amount) as u128));
                    }
                    true
                } else {
                    false
                }
            },
            None => {
                proof {
                    assert(old(self)@[a] == 0u128);
                }
                self.accounts.push((a, amount));
                proof {
                    let s2 = self.accounts@;
                    let n = s.len() as int;
                    assert forall|x: int, y: int|
                        0 <= x < s2.len() && 0 <= y < s2.len() && x != y implies s2[x].0
                            != s2[y].0 by {
                        if x < n && y < n {
                            assert(s[x].0 != s[y].0);
                        } else if x == n {
                            assert(s[y].0 != a);
                        } else {
                            assert(s[x].0 != a);
                        }
                    }
                    lemma_unique_balances(s);
                    lemma_unique_balances(s2);
                    assert forall|b: u64| #[trigger]
                        acct_balance(s2, b) == old(self)@.insert(a, amount)[b] by {
                        if b == a {
                            assert(acct_balance(s2, s2[n].0) == s2[n].1);
                        } else {
                            if acct_has(s2, b) {
                                let j = choose|j: int| 0 <= j < s2.len() && s2[j].0 == b;
                                assert(j != n);
                                assert(s2[j] == s[j]);
                                assert(acct_balance(s2, s2[j].0) == s2[j].1);
                                assert(acct_balance(s, s[j].0) == s[j].1);
                            } else {
                                if acct_has(s, b) {
                                    let j = choose|j: int| 0 <= j < s.len() && s[j].0 == b;
                                    assert(s2[j].0 == b);
                                    assert(acct_has(s2, b));
                                }
                            }
                        }
                    }
                    assert(self@ =~= old(self)@.insert(a, amount));
                }
                true
            },
        }
    }
}

} // verus!
