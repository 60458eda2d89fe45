use vstd::prelude::*;
use crate::platform::{alloc_total, EtfView, ETF, ShariaPlatform};
use crate::types::{AccountId, Balance, Error};

verus! {

/// The views of a sequence of baskets.
pub open spec fn views(s: Seq<ETF>) -> Seq<EtfView> {
    s.map_values(|e: ETF| e@)
}

/// The views of the templates among `s`, in order.
pub open spec fn template_views(s: Seq<ETF>) -> Seq<EtfView>
    decreases s.len(),
{
    if s.len() == 0 {
        Seq::empty()
    } else if s.last().is_template {
        template_views(s.drop_last()).push(s.last()@)
    } else {
        template_views(s.drop_last())
    }
}

/// The views of the positions (not templates) among `s` created by `u`, in order.
pub open spec fn user_views(s: Seq<ETF>, u: AccountId) -> Seq<EtfView>
    decreases s.len(),
{
    if s.len() == 0 {
        Seq::empty()
    } else if !s.last().is_template && s.last().creator == u {
        user_views(s.drop_last(), u).push(s.last()@)
    } else {
        user_views(s.drop_last(), u)
    }
}

/// A copy of an allocation list.
fn copy_allocations(a: &Vec<(String, u8)>) -> (r: Vec<(String, u8)>)
    ensures
        r@ == a@,
{
    let mut out: Vec<(String, u8)> = Vec::new();
    let mut i: usize = 0;
    while i < a.len()
        invariant
            i <= a@.len(),
            out@ == a@.take(i as int),
        decreases a@.len() - i,
    {
        out.push((a[i].0.clone(), a[i].1));
        i = i + 1;
        assert(out@ =~= a@.take(i as int));
    }
    assert(a@.take(i as int) =~= a@);
    out
}

/// The sum of the percentages of an allocation list.
fn allocation_total(a: &Vec<(String, u8)>) -> (r: u128)
    ensures
        r == alloc_total(a@),
{
    let mut total: u128 = 0;
    let mut i: usize = 0;
    while i < a.len()
        invariant
            i <= a@.len(),
            total == alloc_total(a@.take(i as int)),
            total <= 255 * i,
        decreases a@.len() - i,
    {
        assert(a@.take(i + 1).drop_last() =~= a@.take(i as int));
        total = total + a[i].1 as u128;
        i = i + 1;
    }
    assert(a@.take(i as int) =~= a@);
    total
}

impl ETF {
    /// A field-by-field copy.
    pub fn duplicate(&self) -> (r: ETF)
        ensures
            r@ == self@,
    {
        ETF {
            id: self.id,
            name: self.name.clone(),
            description: self.description.clone(),
            creator: self.creator,
            allocations: copy_allocations(&self.allocations),
            is_template: self.is_template,
            total_value: self.total_value,
        }
    }
}

impl ShariaPlatform {
    /// The new state differs from the old one in the baskets at most.
    pub open spec fn same_but_etfs(&self, o: &ShariaPlatform) -> bool {
        &&& self.owner == o.owner
        &&& self.coins@ == o.coins@
        &&& self.dca_orders@ == o.dca_orders@
        &&& self.balances@ == o.balances@
    }

    /// The percentages of every basket, template or position, sum to 100.
    pub proof fn lemma_allocations_sum_to_100(&self, id: u32)
        requires
            self.wf(),
            1 <= id <= self.etfs@.len(),
        ensures
            alloc_total(self.etfs@[id - 1].allocations@) == 100,
    {
        assert(alloc_total(self.etfs@[id - 1].allocations@) == 100);
    }

    /// Whether every asset of `a` is compliant.
    fn allocations_compliant(&self, a: &Vec<(String, u8)>) -> (r: bool)
        requires
            self.wf(),
        ensures
            r == self.all_compliant(a@),
    {
        let mut i: usize = 0;
        while i < a.len()
            invariant
                self.wf(),
                i <= a@.len(),
                forall|k: int| 0 <= k < i ==> self.compliant(#[trigger] a@[k].0@),
            decreases a@.len() - i,
        {
            if !self.coin_is_compliant(&a[i].0) {
                return false;
            }
            i = i + 1;
        }
        true
    }

    /// Checks that the percentages of `a` sum to 100, then that each of its
    /// assets is compliant.
    fn validate_allocations(&self, a: &Vec<(String, u8)>) -> (r: Result<(), Error>)
        requires
            self.wf(),
        ensures
            r is Ok <==> alloc_total(a@) == 100 && self.all_compliant(a@),
            r == Err::<(), Error>(Error::InvalidAllocation) <==> alloc_total(a@) != 100,
            r == Err::<(), Error>(Error::InvalidCoinInAllocation) <==> alloc_total(a@) == 100
                && !self.all_compliant(a@),
    {
        if allocation_total(a) != 100 {
            return Err(Error::InvalidAllocation);
        }
        if !self.allocations_compliant(a) {
            return Err(Error::InvalidCoinInAllocation);
        }
        Ok(())
    }

    /// Creates a position of `caller` with the given allocations and no value.
    /// The percentages must sum to 100 and every asset must be compliant; the
    /// new basket takes the next number.
    pub fn create_etf(
        &mut self,
        caller: AccountId,
        name: String,
        description: String,
        allocations: Vec<(String, u8)>,
    ) -> (r: Result<u32, Error>)
        requires
            old(self).wf(),
            old(self).etfs@.len() < u32::MAX,
        ensures
            final(self).wf(),
            final(self).same_but_etfs(old(self)),
            r is Ok <==> alloc_total(allocations@) == 100 && old(self).all_compliant(allocations@),
            r == Err::<u32, Error>(Error::InvalidAllocation) <==> alloc_total(allocations@) != 100,
            r == Err::<u32, Error>(Error::InvalidCoinInAllocation) <==> alloc_total(allocations@)
                == 100 && !old(self).all_compliant(allocations@),
            r is Err ==> final(self).etfs@ == old(self).etfs@,
            r matches Ok(id) ==> id == old(self).etfs@.len() + 1 && final(self).etfs@ == old(
                self,
            ).etfs@.push(
                ETF {
                    id,
                    name,
                    description,
                    creator: caller,
                    allocations,
                    is_template: false,
                    total_value: 0,
                },
            ),
    {
        self.validate_allocations(&allocations)?;
        let id = self.etfs.len() as u32 + 1;
        self.etfs.push(
            ETF { id, name, description, creator: caller, allocations, is_template: false, total_value: 0 },
        );
        Ok(id)
    }

    /// Creates a template with the given allocations; only the owner may do so.
    /// Validation and numbering are those of `create_etf`.
    pub fn create_template_etf(
        &mut self,
        caller: AccountId,
        name: String,
        description: String,
        allocations: Vec<(String, u8)>,
    ) -> (r: Result<u32, Error>)
        requires
            old(self).wf(),
            old(self).etfs@.len() < u32::MAX,
        ensures
            final(self).wf(),
            final(self).same_but_etfs(old(self)),
            r is Ok <==> caller == old(self).owner && alloc_total(allocations@) == 100 && old(
                self,
            ).all_compliant(allocations@),
            r == Err::<u32, Error>(Error::Unauthorized) <==> caller != old(self).owner,
            r == Err::<u32, Error>(Error::InvalidAllocation) <==> caller == old(self).owner
                && alloc_total(allocations@) != 100,
            r == Err::<u32, Error>(Error::InvalidCoinInAllocation) <==> caller == old(self).owner
                && alloc_total(allocations@) == 100 && !old(self).all_compliant(allocations@),
            r is Err ==> final(self).etfs@ == old(self).etfs@,
            r matches Ok(id) ==> id == old(self).etfs@.len() + 1 && final(self).etfs@ == old(
                self,
            ).etfs@.push(
                ETF {
                    id,
                    name,
                    description,
                    creator: old(self).owner,
                    allocations,
                    is_template: true,
                    total_value: 0,
                },
            ),
    {
        if caller != self.owner {
            return Err(Error::Unauthorized);
        }
        self.validate_allocations(&allocations)?;
        let id = self.etfs.len() as u32 + 1;
        let owner = self.owner;
        self.etfs.push(
            ETF { id, name, description, creator: owner, allocations, is_template: true, total_value: 0 },
        );
        Ok(id)
    }

    /// Creates a position of `caller` copying the template's name, description
    /// and allocations, funded with `investment_amount` from `caller`'s balance
    /// (no debit at all when the amount is 0).
    pub fn subscribe_to_template_etf(
        &mut self,
        caller: AccountId,
        template_etf_id: u32,
        investment_amount: Balance,
    ) -> (r: Result<u32, Error>)
        requires
            old(self).wf(),
            old(self).etfs@.len() < u32::MAX,
        ensures
            final(self).wf(),
            final(self).owner == old(self).owner,
            final(self).coins@ == old(self).coins@,
            final(self).dca_orders@ == old(self).dca_orders@,
            r is Ok <==> old(self).template_exists(template_etf_id) && investment_amount <= old(
                self,
            ).balance_of(caller),
            r == Err::<u32, Error>(Error::ETFNotFound) <==> !old(self).template_exists(
                template_etf_id,
            ),
            r == Err::<u32, Error>(Error::InsufficientBalance) <==> old(self).template_exists(
                template_etf_id,
            ) && investment_amount > old(self).balance_of(caller),
            r is Err ==> final(self).same(old(self)),
            r matches Ok(id) ==> {
                let t = old(self).etfs@[template_etf_id - 1];
                &&& id == old(self).etfs@.len() + 1
                &&& final(self).etfs@.len() == id
                &&& final(self).etfs@.take(id - 1) == old(self).etfs@
                &&& final(self).etfs@[id - 1]@ == EtfView {
                    id,
                    name: t.name@,
                    description: t.description@,
                    creator: caller,
                    allocations: t.allocations@,
                    is_template: false,
                    total_value: investment_amount,
                }
                &&& final(self).balance_set(
                    old(self),
                    caller,
                    (old(self).balance_of(caller) - investment_amount) as Balance,
                )
            },
    {
        if template_etf_id == 0 || template_etf_id as usize > self.etfs.len()
            || !self.etfs[template_etf_id as usize - 1].is_template {
            return Err(Error::ETFNotFound);
        }
        let ti = template_etf_id as usize - 1;
        if self.get_balance(caller) < investment_amount {
            return Err(Error::InsufficientBalance);
        }
        let id = self.etfs.len() as u32 + 1;
        let etf = ETF {
            id,
            name: self.etfs[ti].name.clone(),
            description: self.etfs[ti].description.clone(),
            creator: caller,
            allocations: copy_allocations(&self.etfs[ti].allocations),
            is_template: false,
            total_value: investment_amount,
        };
        assert(etf@.allocations == old(self).etfs@[ti as int].allocations@);
        if investment_amount > 0 {
            let _ = self.debit(caller, investment_amount);
        }
        let ghost mid = *self;
        assert(mid.balance_set(old(self), caller, (old(self).balance_of(caller) - investment_amount) as Balance));
        self.etfs.push(etf);
        proof {
            mid.lemma_balances_frame(old(self), self, caller, (old(self).balance_of(caller) - investment_amount) as Balance);
        }
        assert(self.etfs@.take(id - 1) =~= old(self).etfs@);
        assert(self.etfs@[id - 1]@ == etf@);
        Ok(id)
    }

    /// The position numbered `etf_id`; none for a template or an unknown number.
    pub fn get_etf(&self, etf_id: u32) -> (r: Option<ETF>)
        ensures
            r is Some <==> self.position_exists(etf_id),
            r matches Some(e) ==> e@ == self.etfs@[etf_id - 1]@,
    {
        if etf_id == 0 || etf_id as usize > self.etfs.len() || self.etfs[etf_id as usize
            - 1].is_template {
            return None;
        }
        Some(self.etfs[etf_id as usize - 1].duplicate())
    }

    /// Every template, in the order of creation.
    pub fn get_template_etfs(&self) -> (r: Vec<ETF>)
        ensures
            views(r@) == template_views(self.etfs@),
    {
        let mut out: Vec<ETF> = Vec::new();
        let mut i: usize = 0;
        while i < self.etfs.len()
            invariant
                i <= self.etfs@.len(),
                views(out@) == template_views(self.etfs@.take(i as int)),
            decreases self.etfs@.len() - i,
        {
            assert(self.etfs@.take(i + 1).drop_last() =~= self.etfs@.take(i as int));
            if self.etfs[i].is_template {
                let ghost before = out@;
                out.push(self.etfs[i].duplicate());
                assert(views(out@) =~= views(before).push(self.etfs@[i as int]@));
            }
            i = i + 1;
        }
        assert(self.etfs@.take(i as int) =~= self.etfs@);
        out
    }

    /// Every position of `user`, in the order of creation.
    pub fn get_user_etfs(&self, user: AccountId) -> (r: Vec<ETF>)
        ensures
            views(r@) == user_views(self.etfs@, user),
    {
        let mut out: Vec<ETF> = Vec::new();
        let mut i: usize = 0;
        while i < self.etfs.len()
            invariant
                i <= self.etfs@.len(),
                views(out@) == user_views(self.etfs@.take(i as int), user),
            decreases self.etfs@.len() - i,
        {
            assert(self.etfs@.take(i + 1).drop_last() =~= self.etfs@.take(i as int));
            if !self.etfs[i].is_template && self.etfs[i].creator == user {
                let ghost before = out@;
                out.push(self.etfs[i].duplicate());
                assert(views(out@) =~= views(before).push(self.etfs@[i as int]@));
            }
            i = i + 1;
        }
        assert(self.etfs@.take(i as int) =~= self.etfs@);
        out
    }

    /// Moves `amount` from `caller`'s balance into `caller`'s position `etf_id`.
    pub fn invest_in_etf(&mut self, caller: AccountId, etf_id: u32, amount: Balance) -> (r: Result<
        (),
        Error,
    >)
        requires
            old(self).wf(),
            old(self).position_exists(etf_id) ==> old(self).etfs@[etf_id - 1].total_value + amount
                <= Balance::MAX,
        ensures
            final(self).wf(),
            final(self).owner == old(self).owner,
            final(self).coins@ == old(self).coins@,
            final(self).dca_orders@ == old(self).dca_orders@,
            r is Ok <==> old(self).position_exists(etf_id) && old(self).etfs@[etf_id - 1].creator
                == caller && amount <= old(self).balance_of(caller),
            r == Err::<(), Error>(Error::ETFNotFound) <==> !old(self).position_exists(etf_id),
            r == Err::<(), Error>(Error::ETFNotOwnedByUser) <==> old(self).position_exists(etf_id)
                && old(self).etfs@[etf_id - 1].creator != caller,
            r == Err::<(), Error>(Error::InsufficientBalance) <==> old(self).position_exists(etf_id)
                && old(self).etfs@[etf_id - 1].creator == caller && amount > old(self).balance_of(
                caller,
            ),
            r is Err ==> final(self).same(old(self)),
            r is Ok ==> {
                let e = old(self).etfs@[etf_id - 1];
                &&& final(self).etfs@ == old(self).etfs@.update(
                    etf_id - 1,
                    ETF { total_value: (e.total_value + amount) as Balance, ..e },
                )
                &&& final(self).balance_set(
                    old(self),
                    caller,
                    (old(self).balance_of(caller) - amount) as Balance,
                )
            },
    {
        if etf_id == 0 || etf_id as usize > self.etfs.len() || self.etfs[etf_id as usize
            - 1].is_template {
            return Err(Error::ETFNotFound);
        }
        let k = etf_id as usize - 1;
        if self.etfs[k].creator != caller {
            return Err(Error::ETFNotOwnedByUser);
        }
        self.debit(caller, amount)?;
        let ghost mid = *self;
        let v = self.etfs[k].total_value + amount;
        self.etfs[k].total_value = v;
        assert(self.etfs@ =~= old(self).etfs@.update(k as int, ETF { total_value: v, ..old(self).etfs@[k as int] }));
        proof {
            mid.lemma_balances_frame(old(self), self, caller, (old(self).balance_of(caller) - amount) as Balance);
        }
        Ok(())
    }
}

} // verus!
