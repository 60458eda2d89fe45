use vstd::prelude::*;
use crate::platform::{accounts_unique, balance_in, lemma_balance_in, ShariaPlatform};
use crate::types::{AccountId, Balance, Error};

verus! {

impl ShariaPlatform {
    /// The position of `a`'s entry in the ledger, if it has one.
    fn find_account(&self, a: AccountId) -> (r: Option<usize>)
        ensures
            r matches Some(i) ==> i < self.balances@.len() && self.balances@[i as int].0 == a,
            r is None ==> forall|i: int| 0 <= i < self.balances@.len() ==> self.balances@[i].0 != a,
    {
        let mut i: usize = 0;
        while i < self.balances.len()
            invariant
                i <= self.balances@.len(),
                forall|k: int| 0 <= k < i ==> self.balances@[k].0 != a,
            decreases self.balances@.len() - i,
        {
            if self.balances[i].0 == a {
                return Some(i);
            }
            i = i + 1;
        }
        None
    }

    /// Sets `a`'s balance to `v`, leaving everything else as it was.
    pub(crate) fn set_balance(&mut self, a: AccountId, v: Balance)
        requires
            old(self).wf(),
        ensures
            final(self).wf(),
            final(self).same_but_balances(old(self)),
            final(self).balance_set(old(self), a, v),
    {
        proof {
            lemma_balance_in(self.balances@, a);
        }
        match self.find_account(a) {
            Some(i) => {
                self.balances.set(i, (a, v));
                assert(self.balances@[i as int].0 == a);
            },
            None => {
                self.balances.push((a, v));
                assert(self.balances@[self.balances@.len() - 1].0 == a);
            },
        }
        proof {
            let s = self.balances@;
            assert(accounts_unique(s));
            lemma_balance_in(s, a);
            assert(balance_in(s, a) == v);
            assert forall|b: AccountId| b != a implies #[trigger] balance_in(s, b) == old(
                self,
            ).balance_of(b) by {
                lemma_balance_in(s, b);
                lemma_balance_in(old(self).balances@, b);
                if exists|k: int| 0 <= k < s.len() && s[k].0 == b {
                    let k = choose|k: int| 0 <= k < s.len() && s[k].0 == b;
                    assert(old(self).balances@[k].0 == b);
                } else {
                    assert forall|k: int| 0 <= k < old(self).balances@.len() implies old(
                        self,
                    ).balances@[k].0 != b by {
                        assert(s[k].0 == old(self).balances@[k].0);
                    }
                }
            }
        }
    }

    /// Takes `amount` from `a`'s balance when it holds that much; fails with
    /// `InsufficientBalance`, changing nothing, when it does not.
    pub(crate) fn debit(&mut self, a: AccountId, amount: Balance) -> (r: Result<(), Error>)
        requires
            old(self).wf(),
        ensures
            final(self).wf(),
            final(self).same_but_balances(old(self)),
            r is Ok <==> amount <= old(self).balance_of(a),
            r is Err ==> r == Err::<(), Error>(Error::InsufficientBalance) && final(self).same(old(self)),
            r is Ok ==> final(self).balance_set(old(self), a, (old(self).balance_of(a) - amount) as Balance),
    {
        let current = self.get_balance(a);
        if current < amount {
            return Err(Error::InsufficientBalance);
        }
        self.set_balance(a, current - amount);
        Ok(())
    }

    /// Credits `caller` with `amount`, the value attached to the call. The balance
    /// saturates at the largest amount rather than wrapping.
    pub fn deposit(&mut self, caller: AccountId, amount: Balance) -> (r: Result<(), Error>)
        requires
            old(self).wf(),
        ensures
            r is Ok,
            final(self).wf(),
            final(self).same_but_balances(old(self)),
            final(self).balance_set(
                old(self),
                caller,
                if old(self).balance_of(caller) + amount <= Balance::MAX {
                    (old(self).balance_of(caller) + amount) as Balance
                } else {
                    Balance::MAX
                },
            ),
    {
        let current = self.get_balance(caller);
        self.set_balance(caller, current.saturating_add(amount));
        Ok(())
    }

    /// The balance of `user`; 0 for an account that never held any.
    pub fn get_balance(&self, user: AccountId) -> (r: Balance)
        requires
            self.wf(),
        ensures
            r == self.balance_of(user),
    {
        proof {
            lemma_balance_in(self.balances@, user);
        }
        match self.find_account(user) {
            Some(i) => self.balances[i].1,
            None => 0,
        }
    }
}

} // verus!
