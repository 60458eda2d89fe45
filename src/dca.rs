use vstd::prelude::*;
use crate::platform::{deactivated, DCAOrder, ShariaPlatform};
use crate::types::{AccountId, Balance, Error};

verus! {

/// The order after one run: one more interval completed, the next run one
/// interval later, and inactive once a positive limit is reached.
pub open spec fn executed(o: DCAOrder) -> DCAOrder {
    DCAOrder {
        intervals_completed: (o.intervals_completed + 1) as u32,
        next_execution_block: (o.next_execution_block + o.interval_blocks) as u32,
        is_active: !(o.total_intervals > 0 && o.intervals_completed + 1 >= o.total_intervals),
        ..o
    }
}

/// One more run of `o` keeps its counters within `u32`.
pub open spec fn can_advance(o: DCAOrder) -> bool {
    &&& o.next_execution_block + o.interval_blocks <= u32::MAX
    &&& o.total_intervals == 0 ==> o.intervals_completed < u32::MAX
}

/// The orders among `s` owned by `u`, in order.
pub open spec fn user_orders(s: Seq<DCAOrder>, u: AccountId) -> Seq<DCAOrder>
    decreases s.len(),
{
    if s.len() == 0 {
        Seq::empty()
    } else if s.last().owner == u {
        user_orders(s.drop_last(), u).push(s.last())
    } else {
        user_orders(s.drop_last(), u)
    }
}

/// An order with a positive limit never completes more intervals than the
/// limit. An active order that runs once stays within it, and becomes inactive
/// exactly on the run that reaches it. An order with no limit stays active on
/// every run. A cancelled order is inactive and stays within its limit.
pub proof fn lemma_dca_progress(o: DCAOrder)
    requires
        o.progress_ok(),
    ensures
        o.is_active && o.total_intervals > 0 ==> o.intervals_completed < o.total_intervals,
        o.is_active ==> executed(o).progress_ok(),
        o.is_active ==> (!executed(o).is_active <==> o.total_intervals > 0
            && executed(o).intervals_completed == o.total_intervals),
        deactivated(o).progress_ok(),
        !deactivated(o).is_active,
{
}

impl ShariaPlatform {
    /// The new state differs from the old one in the recurring orders at most.
    pub open spec fn same_but_orders(&self, o: &ShariaPlatform) -> bool {
        &&& self.owner == o.owner
        &&& self.coins@ == o.coins@
        &&& self.etfs@ == o.etfs@
        &&& self.balances@ == o.balances@
    }

    /// `self` is what cancelling order `order_id` on behalf of `caller` makes of
    /// `o`, with outcome `r`.
    pub open spec fn cancelled(&self, o: &ShariaPlatform, caller: AccountId, order_id: u32, r: Result<(), Error>) -> bool {
        &&& self.same_but_orders(o)
        &&& r is Ok <==> o.order_exists(order_id) && o.dca_orders@[order_id - 1].owner == caller
        &&& r == Err::<(), Error>(Error::DCAOrderNotFound) <==> !o.order_exists(order_id)
        &&& r == Err::<(), Error>(Error::Unauthorized) <==> o.order_exists(order_id)
            && o.dca_orders@[order_id - 1].owner != caller
        &&& r is Err ==> self.dca_orders@ == o.dca_orders@
        &&& r is Ok ==> self.dca_orders@ == o.dca_orders@.update(
            order_id - 1,
            deactivated(o.dca_orders@[order_id - 1]),
        )
    }

    /// Creates an active recurring order of `caller` for a compliant asset,
    /// first due `interval_blocks` blocks after `now_block`. It may not start
    /// before `now_timestamp`. No funds are reserved.
    pub fn create_dca_order(
        &mut self,
        caller: AccountId,
        now_timestamp: u64,
        now_block: u32,
        coin_id: String,
        amount_per_interval: Balance,
        interval_blocks: u32,
        total_intervals: u32,
        start_timestamp: u64,
    ) -> (r: Result<u32, Error>)
        requires
            old(self).wf(),
            old(self).dca_orders@.len() < u32::MAX,
            now_block + interval_blocks <= u32::MAX,
        ensures
            final(self).wf(),
            final(self).same_but_orders(old(self)),
            r is Ok <==> old(self).compliant(coin_id@) && start_timestamp >= now_timestamp,
            r == Err::<u32, Error>(Error::NotShariaCompliant) <==> !old(self).compliant(coin_id@),
            r == Err::<u32, Error>(Error::InvalidStartTime) <==> old(self).compliant(coin_id@)
                && start_timestamp < now_timestamp,
            r is Err ==> final(self).dca_orders@ == old(self).dca_orders@,
            r matches Ok(id) ==> id == old(self).dca_orders@.len() + 1 && final(self).dca_orders@
                == old(self).dca_orders@.push(
                DCAOrder {
                    id,
                    owner: caller,
                    coin_id,
                    amount_per_interval,
                    interval_blocks,
                    intervals_completed: 0,
                    total_intervals,
                    next_execution_block: (now_block + interval_blocks) as u32,
                    start_timestamp,
                    is_active: true,
                },
            ),
    {
        if !self.coin_is_compliant(&coin_id) {
            return Err(Error::NotShariaCompliant);
        }
        if start_timestamp < now_timestamp {
            return Err(Error::InvalidStartTime);
        }
        let id = self.dca_orders.len() as u32 + 1;
        self.dca_orders.push(
            DCAOrder {
                id,
                owner: caller,
                coin_id,
                amount_per_interval,
                interval_blocks,
                intervals_completed: 0,
                total_intervals,
                next_execution_block: now_block + interval_blocks,
                start_timestamp,
                is_active: true,
            },
        );
        Ok(id)
    }

    /// Runs order `order_id` once at block `now_block` and time `now_timestamp`,
    /// moving `amount_per_interval` out of its owner's balance. Anyone may call it.
    pub fn execute_dca_order(&mut self, now_timestamp: u64, now_block: u32, order_id: u32) -> (r:
        Result<(), Error>)
        requires
            old(self).wf(),
            old(self).order_exists(order_id) && old(self).dca_orders@[order_id - 1].is_active
                ==> can_advance(old(self).dca_orders@[order_id - 1]),
        ensures
            final(self).wf(),
            final(self).owner == old(self).owner,
            final(self).coins@ == old(self).coins@,
            final(self).etfs@ == old(self).etfs@,
            ({
                let o = old(self).dca_orders@[order_id - 1];
                let found = old(self).order_exists(order_id);
                let ready = now_timestamp >= o.start_timestamp && now_block >= o.next_execution_block;
                let funded = o.amount_per_interval <= old(self).balance_of(o.owner);
                &&& r is Ok <==> found && o.is_active && ready && funded
                &&& r == Err::<(), Error>(Error::DCAOrderNotFound) <==> !found
                &&& r == Err::<(), Error>(Error::OrderInactive) <==> found && !o.is_active
                &&& r == Err::<(), Error>(Error::OrderNotReady) <==> found && o.is_active && !ready
                &&& r == Err::<(), Error>(Error::InsufficientBalance) <==> found && o.is_active
                    && ready && !funded
                &&& r is Err ==> final(self).same(old(self))
                &&& r is Ok ==> final(self).dca_orders@ == old(self).dca_orders@.update(
                    order_id - 1,
                    executed(o),
                )
                &&& r is Ok ==> final(self).balance_set(
                    old(self),
                    o.owner,
                    (old(self).balance_of(o.owner) - o.amount_per_interval) as Balance,
                )
            }),
    {
        if order_id == 0 || order_id as usize > self.dca_orders.len() {
            return Err(Error::DCAOrderNotFound);
        }
        let k = order_id as usize - 1;
        if !self.dca_orders[k].is_active {
            return Err(Error::OrderInactive);
        }
        if now_timestamp < self.dca_orders[k].start_timestamp {
            return Err(Error::OrderNotReady);
        }
        if now_block < self.dca_orders[k].next_execution_block {
            return Err(Error::OrderNotReady);
        }
        proof {
            assert(self.dca_orders@[k as int].progress_ok());
            lemma_dca_progress(self.dca_orders@[k as int]);
        }
        let owner = self.dca_orders[k].owner;
        let amount = self.dca_orders[k].amount_per_interval;
        self.debit(owner, amount)?;
        let ghost mid = *self;
        let completed = self.dca_orders[k].intervals_completed + 1;
        let next = self.dca_orders[k].next_execution_block + self.dca_orders[k].interval_blocks;
        let total = self.dca_orders[k].total_intervals;
        self.dca_orders[k].intervals_completed = completed;
        self.dca_orders[k].next_execution_block = next;
        if total > 0 && completed >= total {
            self.dca_orders[k].is_active = false;
        }
        assert(self.dca_orders@ =~= old(self).dca_orders@.update(k as int, executed(old(self).dca_orders@[k as int])));
        assert forall|i: int| 0 <= i < self.dca_orders@.len() implies #[trigger] self.dca_orders@[i].progress_ok() by {
            assert(old(self).dca_orders@[i].progress_ok());
        }
        proof {
            mid.lemma_balances_frame(old(self), self, owner, (old(self).balance_of(owner) - amount) as Balance);
        }
        Ok(())
    }

    /// Deactivates order `order_id`; only its owner may do so. Cancelling an
    /// inactive order succeeds and changes nothing.
    pub fn cancel_dca_order(&mut self, caller: AccountId, order_id: u32) -> (r: Result<(), Error>)
        requires
            old(self).wf(),
        ensures
            final(self).wf(),
            final(self).cancelled(old(self), caller, order_id, r),
    {
        if order_id == 0 || order_id as usize > self.dca_orders.len() {
            return Err(Error::DCAOrderNotFound);
        }
        let k = order_id as usize - 1;
        if self.dca_orders[k].owner != caller {
            return Err(Error::Unauthorized);
        }
        proof {
            assert(self.dca_orders@[k as int].progress_ok());
            lemma_dca_progress(self.dca_orders@[k as int]);
        }
        self.dca_orders[k].is_active = false;
        assert(self.dca_orders@ =~= old(self).dca_orders@.update(k as int, deactivated(old(self).dca_orders@[k as int])));
        assert forall|i: int| 0 <= i < self.dca_orders@.len() implies #[trigger] self.dca_orders@[i].progress_ok() by {
            assert(old(self).dca_orders@[i].progress_ok());
        }
        Ok(())
    }

    /// Cancelling an order a second time succeeds and changes nothing.
    pub proof fn lemma_cancel_twice(
        p0: ShariaPlatform,
        p1: ShariaPlatform,
        p2: ShariaPlatform,
        caller: AccountId,
        order_id: u32,
        r1: Result<(), Error>,
        r2: Result<(), Error>,
    )
        requires
            p1.cancelled(&p0, caller, order_id, r1),
            p2.cancelled(&p1, caller, order_id, r2),
            r1 is Ok,
        ensures
            r2 is Ok,
            p2.same(&p1),
    {
        let k = order_id - 1;
        assert(p1.dca_orders@[k] == deactivated(p0.dca_orders@[k]));
        assert(p2.dca_orders@ =~= p1.dca_orders@);
    }

    /// The order numbered `order_id`, if there is one.
    pub fn get_dca_order(&self, order_id: u32) -> (r: Option<DCAOrder>)
        ensures
            r is Some <==> self.order_exists(order_id),
            r matches Some(o) ==> o == self.dca_orders@[order_id - 1],
    {
        if order_id == 0 || order_id as usize > self.dca_orders.len() {
            return None;
        }
        Some(self.dca_orders[order_id as usize - 1].duplicate())
    }

    /// Every order of `user`, in the order of creation.
    pub fn get_user_dca_orders(&self, user: AccountId) -> (r: Vec<DCAOrder>)
        ensures
            r@ == user_orders(self.dca_orders@, user),
    {
        let mut out: Vec<DCAOrder> = Vec::new();
        let mut i: usize = 0;
        while i < self.dca_orders.len()
            invariant
                i <= self.dca_orders@.len(),
                out@ == user_orders(self.dca_orders@.take(i as int), user),
            decreases self.dca_orders@.len() - i,
        {
            assert(self.dca_orders@.take(i + 1).drop_last() =~= self.dca_orders@.take(i as int));
            if self.dca_orders[i].owner == user {
                out.push(self.dca_orders[i].duplicate());
            }
            i = i + 1;
        }
        assert(self.dca_orders@.take(i as int) =~= self.dca_orders@);
        out
    }

    /// Spends `amount` of `caller`'s balance on one purchase of a compliant
    /// asset, with no basket or order behind it.
    pub fn invest_once(&mut self, caller: AccountId, coin_id: String, amount: Balance) -> (r: Result<
        (),
        Error,
    >)
        requires
            old(self).wf(),
        ensures
            final(self).wf(),
            final(self).same_but_balances(old(self)),
            r is Ok <==> old(self).compliant(coin_id@) && amount <= old(self).balance_of(caller),
            r == Err::<(), Error>(Error::NotShariaCompliant) <==> !old(self).compliant(coin_id@),
            r == Err::<(), Error>(Error::InsufficientBalance) <==> old(self).compliant(coin_id@)
                && amount > old(self).balance_of(caller),
            r is Err ==> final(self).same(old(self)),
            r is Ok ==> final(self).balance_set(
                old(self),
                caller,
                (old(self).balance_of(caller) - amount) as Balance,
            ),
    {
        if !self.coin_is_compliant(&coin_id) {
            return Err(Error::NotShariaCompliant);
        }
        self.debit(caller, amount)
    }
}

} // verus!
