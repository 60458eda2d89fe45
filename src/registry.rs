use vstd::prelude::*;
use crate::platform::ShariaPlatform;
use crate::types::{AccountId, Error, ShariaCoin};

verus! {

/// The registry after an upsert of `c`: the record with `c`'s identifier is
/// replaced in place, or `c` is appended when there is none.
pub open spec fn registered(s: Seq<ShariaCoin>, c: ShariaCoin) -> Seq<ShariaCoin> {
    if exists|k: int| 0 <= k < s.len() && s[k].id@ == c.id@ {
        s.update(choose|k: int| 0 <= k < s.len() && s[k].id@ == c.id@, c)
    } else {
        s.push(c)
    }
}

/// The registry without the record whose identifier is `id`.
pub open spec fn unregistered(s: Seq<ShariaCoin>, id: Seq<char>) -> Seq<ShariaCoin> {
    s.remove(choose|k: int| 0 <= k < s.len() && s[k].id@ == id)
}

impl ShariaPlatform {
    /// The new state differs from the old one in the registry at most.
    pub open spec fn same_but_coins(&self, o: &ShariaPlatform) -> bool {
        &&& self.owner == o.owner
        &&& self.etfs@ == o.etfs@
        &&& self.dca_orders@ == o.dca_orders@
        &&& self.balances@ == o.balances@
    }

    /// Whether the registry has a record for `id`, verified or not.
    pub open spec fn coin_listed(&self, id: Seq<char>) -> bool {
        exists|k: int| 0 <= k < self.coins@.len() && #[trigger] self.coins@[k].id@ == id
    }

    /// Fails with `Unauthorized` unless `caller` is the platform's owner.
    fn ensure_owner(&self, caller: AccountId) -> (r: Result<(), Error>)
        ensures
            r is Ok <==> caller == self.owner,
            r is Err ==> r == Err::<(), Error>(Error::Unauthorized),
    {
        if caller != self.owner {
            return Err(Error::Unauthorized);
        }
        Ok(())
    }

    /// The position of the record for `id`, if there is one.
    fn find_coin(&self, id: &String) -> (r: Option<usize>)
        ensures
            r matches Some(k) ==> k < self.coins@.len() && self.coins@[k as int].id@ == id@,
            r is None ==> !self.coin_listed(id@),
    {
        let mut i: usize = 0;
        while i < self.coins.len()
            invariant
                i <= self.coins@.len(),
                forall|k: int| 0 <= k < i ==> self.coins@[k].id@ != id@,
            decreases self.coins@.len() - i,
        {
            if self.coins[i].id == *id {
                return Some(i);
            }
            i = i + 1;
        }
        None
    }

    /// Whether `id` names a verified asset of the registry.
    pub(crate) fn coin_is_compliant(&self, id: &String) -> (r: bool)
        requires
            self.wf(),
        ensures
            r == self.compliant(id@),
    {
        match self.find_coin(id) {
            Some(k) => self.coins[k].verified,
            None => false,
        }
    }

    /// Whether `coin_id` names a verified asset of the registry; false for an
    /// unknown identifier.
    pub fn is_sharia_compliant(&self, coin_id: String) -> (r: bool)
        requires
            self.wf(),
        ensures
            r == self.compliant(coin_id@),
    {
        self.coin_is_compliant(&coin_id)
    }

    /// Records `coin_id` as a verified asset, replacing any earlier record for
    /// it in place; only the owner may do so.
    pub fn register_sharia_coin(
        &mut self,
        caller: AccountId,
        coin_id: String,
        name: String,
        symbol: String,
        compliance_reason: String,
    ) -> (r: Result<(), Error>)
        requires
            old(self).wf(),
        ensures
            final(self).wf(),
            final(self).same_but_coins(old(self)),
            r is Ok <==> caller == old(self).owner,
            r is Err ==> r == Err::<(), Error>(Error::Unauthorized) && final(self).coins@ == old(
                self,
            ).coins@,
            r is Ok ==> final(self).coins@ == registered(
                old(self).coins@,
                ShariaCoin { id: coin_id, name, symbol, verified: true, compliance_reason },
            ),
            r is Ok ==> final(self).compliant(coin_id@),
    {
        self.ensure_owner(caller)?;
        let ghost c = ShariaCoin {
            id: coin_id,
            name,
            symbol,
            verified: true,
            compliance_reason,
        };
        let pos = self.find_coin(&coin_id);
        let coin = ShariaCoin { id: coin_id, name, symbol, verified: true, compliance_reason };
        assert(coin == c);
        match pos {
            Some(k) => {
                proof {
                    let s = old(self).coins@;
                    let j = choose|j: int| 0 <= j < s.len() && s[j].id@ == c.id@;
                    assert(s[j].id@ == s[k as int].id@);
                }
                self.coins.set(k, coin);
                assert(self.coins@[k as int].id@ == c.id@);
            },
            None => {
                self.coins.push(coin);
                assert(self.coins@[self.coins@.len() - 1].id@ == c.id@);
            },
        }
        Ok(())
    }

    /// Deletes the record for `coin_id`; only the owner may do so. Baskets that
    /// already name the asset keep it.
    pub fn remove_sharia_coin(&mut self, caller: AccountId, coin_id: String) -> (r: Result<
        (),
        Error,
    >)
        requires
            old(self).wf(),
        ensures
            final(self).wf(),
            final(self).same_but_coins(old(self)),
            r is Ok <==> caller == old(self).owner && old(self).coin_listed(coin_id@),
            r == Err::<(), Error>(Error::Unauthorized) <==> caller != old(self).owner,
            r == Err::<(), Error>(Error::CoinNotFound) <==> caller == old(self).owner
                && !old(self).coin_listed(coin_id@),
            r is Err ==> final(self).coins@ == old(self).coins@,
            r is Ok ==> final(self).coins@ == unregistered(old(self).coins@, coin_id@),
            r is Ok ==> !final(self).coin_listed(coin_id@),
    {
        self.ensure_owner(caller)?;
        match self.find_coin(&coin_id) {
            Some(k) => {
                proof {
                    let s = old(self).coins@;
                    let j = choose|j: int| 0 <= j < s.len() && s[j].id@ == coin_id@;
                    assert(s[j].id@ == s[k as int].id@);
                }
                self.coins.remove(k);
                proof {
                    let s = old(self).coins@;
                    assert forall|m: int| 0 <= m < self.coins@.len() implies self.coins@[m].id@
                        != coin_id@ by {
                        if m < k {
                            assert(self.coins@[m] == s[m]);
                        } else {
                            assert(self.coins@[m] == s[m + 1]);
                        }
                    }
                }
                Ok(())
            },
            None => Err(Error::CoinNotFound),
        }
    }

    /// Every record of the registry, in the order of first registration.
    pub fn get_sharia_coins(&self) -> (r: Vec<ShariaCoin>)
        ensures
            r@ == self.coins@,
    {
        let mut out: Vec<ShariaCoin> = Vec::new();
        let mut i: usize = 0;
        while i < self.coins.len()
            invariant
                i <= self.coins@.len(),
                out@ == self.coins@.take(i as int),
            decreases self.coins@.len() - i,
        {
            out.push(self.coins[i].duplicate());
            i = i + 1;
            assert(out@ =~= self.coins@.take(i as int));
        }
        assert(self.coins@.take(i as int) =~= self.coins@);
        out
    }
}

} // verus!
