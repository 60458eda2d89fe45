use vstd::prelude::*;
use crate::types::{AccountId, Balance, ShariaCoin};

verus! {

/// A basket of assets with fixed percentage allocations; a template when
/// `is_template` holds, else a position owned by `creator`.
#[derive(Debug, Clone, PartialEq)]
pub struct ETF {
    pub id: u32,
    pub name: String,
    pub description: String,
    pub creator: AccountId,
    pub allocations: Vec<(String, u8)>,
    pub is_template: bool,
    pub total_value: Balance,
}

/// What a basket holds, with its allocations as a sequence.
pub ghost struct EtfView {
    pub id: u32,
    pub name: Seq<char>,
    pub description: Seq<char>,
    pub creator: AccountId,
    pub allocations: Seq<(String, u8)>,
    pub is_template: bool,
    pub total_value: Balance,
}

impl View for ETF {
    type V = EtfView;

    open spec fn view(&self) -> EtfView {
        EtfView {
            id: self.id,
            name: self.name@,
            description: self.description@,
            creator: self.creator,
            allocations: self.allocations@,
            is_template: self.is_template,
            total_value: self.total_value,
        }
    }
}

/// A recurring purchase of one asset, spending a fixed amount every
/// `interval_blocks` blocks, for `total_intervals` runs (0: without limit).
#[derive(Debug, Clone, PartialEq)]
pub struct DCAOrder {
    pub id: u32,
    pub owner: AccountId,
    pub coin_id: String,
    pub amount_per_interval: Balance,
    pub interval_blocks: u32,
    pub intervals_completed: u32,
    pub total_intervals: u32,
    pub next_execution_block: u32,
    pub start_timestamp: u64,
    pub is_active: bool,
}

impl DCAOrder {
    /// A field-by-field copy.
    pub fn duplicate(&self) -> (r: DCAOrder)
        ensures
            r == *self,
    {
        DCAOrder {
            id: self.id,
            owner: self.owner,
            coin_id: self.coin_id.clone(),
            amount_per_interval: self.amount_per_interval,
            interval_blocks: self.interval_blocks,
            intervals_completed: self.intervals_completed,
            total_intervals: self.total_intervals,
            next_execution_block: self.next_execution_block,
            start_timestamp: self.start_timestamp,
            is_active: self.is_active,
        }
    }

    /// An order never runs past its limit, and one that reached it is inactive.
    pub open spec fn progress_ok(&self) -> bool {
        self.total_intervals > 0 ==> {
            &&& self.intervals_completed <= self.total_intervals
            &&& self.intervals_completed == self.total_intervals ==> !self.is_active
        }
    }
}

/// The order with `is_active` cleared.
pub open spec fn deactivated(o: DCAOrder) -> DCAOrder {
    DCAOrder { is_active: false, ..o }
}

/// The sum of the percentages of an allocation list.
pub open spec fn alloc_total(s: Seq<(String, u8)>) -> nat
    decreases s.len(),
{
    if s.len() == 0 {
        0
    } else {
        alloc_total(s.drop_last()) + s.last().1 as nat
    }
}

/// The balance that a ledger of (account, amount) entries holds for `a`; 0 when
/// it has no entry for `a`.
pub open spec fn balance_in(s: Seq<(AccountId, Balance)>, a: AccountId) -> Balance {
    if exists|i: int| 0 <= i < s.len() && s[i].0 == a {
        s[choose|i: int| 0 <= i < s.len() && s[i].0 == a].1
    } else {
        0
    }
}

/// No two entries of the ledger belong to the same account.
pub open spec fn accounts_unique(s: Seq<(AccountId, Balance)>) -> bool {
    forall|i: int, j: int| 0 <= i < s.len() && 0 <= j < s.len() && s[i].0 == s[j].0 ==> i == j
}

/// In a ledger without repeated accounts, an entry gives its account's balance,
/// and an account without an entry has none.
pub proof fn lemma_balance_in(s: Seq<(AccountId, Balance)>, a: AccountId)
    requires
        accounts_unique(s),
    ensures
        forall|i: int| 0 <= i < s.len() && s[i].0 == a ==> balance_in(s, a) == s[i].1,
        (forall|i: int| 0 <= i < s.len() ==> s[i].0 != a) ==> balance_in(s, a) == 0,
{
}

/// The platform: its owner, the asset registry, the baskets (templates and
/// positions, numbered from 1 in creation order), the recurring orders
/// (numbered from 1) and the balance ledger.
pub struct ShariaPlatform {
    pub owner: AccountId,
    pub coins: Vec<ShariaCoin>,
    pub etfs: Vec<ETF>,
    pub dca_orders: Vec<DCAOrder>,
    pub balances: Vec<(AccountId, Balance)>,
}

impl ShariaPlatform {
    /// The platform's invariant.
    pub open spec fn wf(&self) -> bool {
        &&& forall|i: int, j: int|
            0 <= i < self.coins@.len() && 0 <= j < self.coins@.len() && self.coins@[i].id@
                == self.coins@[j].id@ ==> i == j
        &&& forall|i: int| 0 <= i < self.etfs@.len() ==> #[trigger] self.etfs@[i].id == i + 1
        &&& forall|i: int|
            0 <= i < self.etfs@.len() ==> alloc_total(#[trigger] self.etfs@[i].allocations@) == 100
        &&& forall|i: int| 0 <= i < self.dca_orders@.len() ==> #[trigger] self.dca_orders@[i].id == i + 1
        &&& forall|i: int| 0 <= i < self.dca_orders@.len() ==> #[trigger] self.dca_orders@[i].progress_ok()
        &&& accounts_unique(self.balances@)
    }

    /// Whether the registry holds a verified record for `id`.
    pub open spec fn compliant(&self, id: Seq<char>) -> bool {
        exists|i: int| 0 <= i < self.coins@.len() && #[trigger] self.coins@[i].id@ == id && self.coins@[i].verified
    }

    /// Whether every asset of an allocation list is compliant.
    pub open spec fn all_compliant(&self, s: Seq<(String, u8)>) -> bool {
        forall|i: int| 0 <= i < s.len() ==> self.compliant(#[trigger] s[i].0@)
    }

    /// The balance of account `a`.
    pub open spec fn balance_of(&self, a: AccountId) -> Balance {
        balance_in(self.balances@, a)
    }

    /// The basket numbered `id` exists and is a template.
    pub open spec fn template_exists(&self, id: u32) -> bool {
        1 <= id <= self.etfs@.len() && self.etfs@[id - 1].is_template
    }

    /// The basket numbered `id` exists and is a position (not a template).
    pub open spec fn position_exists(&self, id: u32) -> bool {
        1 <= id <= self.etfs@.len() && !self.etfs@[id - 1].is_template
    }

    /// The recurring order numbered `id` exists.
    pub open spec fn order_exists(&self, id: u32) -> bool {
        1 <= id <= self.dca_orders@.len()
    }

    /// The new state differs from the old one in the balance ledger at most.
    pub open spec fn same_but_balances(&self, o: &ShariaPlatform) -> bool {
        &&& self.owner == o.owner
        &&& self.coins@ == o.coins@
        &&& self.etfs@ == o.etfs@
        &&& self.dca_orders@ == o.dca_orders@
    }

    /// The two states are the same.
    pub open spec fn same(&self, o: &ShariaPlatform) -> bool {
        &&& self.same_but_balances(o)
        &&& self.balances@ == o.balances@
    }

    /// `a`'s balance is `v` in the new state; other accounts keep theirs.
    pub open spec fn balance_set(&self, o: &ShariaPlatform, a: AccountId, v: Balance) -> bool {
        &&& self.balance_of(a) == v
        &&& forall|b: AccountId| b != a ==> #[trigger] self.balance_of(b) == o.balance_of(b)
    }

    /// A state with the same ledger as `self` holds the same balances.
    pub proof fn lemma_balances_frame(&self, o: &ShariaPlatform, n: &ShariaPlatform, a: AccountId, v: Balance)
        requires
            self.balance_set(o, a, v),
            n.balances@ == self.balances@,
        ensures
            n.balance_set(o, a, v),
    {
        assert forall|b: AccountId| b != a implies #[trigger] n.balance_of(b) == o.balance_of(b) by {
            assert(self.balance_of(b) == o.balance_of(b));
        }
    }

    /// A platform owned by `owner`, seeded with three template baskets
    /// (numbered 1 to 3) and nothing else.
    pub fn new(owner: AccountId) -> (r: ShariaPlatform)
        ensures
            r.wf(),
            r.owner == owner,
            r.coins@.len() == 0,
            r.etfs@.len() == 3,
            forall|i: int| 0 <= i < 3 ==> (#[trigger] r.etfs@[i]).is_template
                && r.etfs@[i].creator == owner && r.etfs@[i].total_value == 0,
            r.dca_orders@.len() == 0,
            r.balances@.len() == 0,
            forall|a: AccountId| r.balance_of(a) == 0,
    {
        let mut r = ShariaPlatform {
            owner,
            coins: Vec::new(),
            etfs: Vec::new(),
            dca_orders: Vec::new(),
            balances: Vec::new(),
        };
        r.initialize_template_etfs();
        r
    }

    /// Seeds the three initial templates.
    fn initialize_template_etfs(&mut self)
        requires
            old(self).etfs@.len() == 0,
            old(self).coins@.len() == 0,
            old(self).dca_orders@.len() == 0,
            old(self).balances@.len() == 0,
        ensures
            final(self).wf(),
            final(self).owner == old(self).owner,
            final(self).coins@.len() == 0,
            final(self).etfs@.len() == 3,
            forall|i: int| 0 <= i < 3 ==> (#[trigger] final(self).etfs@[i]).is_template
                && final(self).etfs@[i].creator == old(self).owner
                && final(self).etfs@[i].total_value == 0,
            final(self).dca_orders@.len() == 0,
            final(self).balances@.len() == 0,
    {
        let a1: Vec<(String, u8)> = vec![
            (String::from_str("BTC"), 40u8),
            (String::from_str("ETH"), 30u8),
            (String::from_str("BNB"), 15u8),
            (String::from_str("XRP"), 15u8),
        ];
        assert(alloc_total(a1@) == 100) by {
            reveal_with_fuel(alloc_total, 5);
        }
        self.etfs.push(ETF {
            id: 1,
            name: String::from_str("Major Sharia Coins ETF"),
            description: String::from_str("Diversified portfolio of major Sharia-compliant cryptocurrencies"),
            creator: self.owner,
            allocations: a1,
            is_template: true,
            total_value: 0,
        });
        let a2: Vec<(String, u8)> = vec![
            (String::from_str("USDT"), 50u8),
            (String::from_str("USDC"), 30u8),
            (String::from_str("DAI"), 20u8),
        ];
        assert(alloc_total(a2@) == 100) by {
            reveal_with_fuel(alloc_total, 4);
        }
        self.etfs.push(ETF {
            id: 2,
            name: String::from_str("Sharia Stablecoins ETF"),
            description: String::from_str("Portfolio focused on Sharia-compliant stablecoins"),
            creator: self.owner,
            allocations: a2,
            is_template: true,
            total_value: 0,
        });
        let a3: Vec<(String, u8)> = vec![
            (String::from_str("ETH"), 50u8),
            (String::from_str("BNB"), 25u8),
            (String::from_str("ADA"), 15u8),
            (String::from_str("DOT"), 10u8),
        ];
        assert(alloc_total(a3@) == 100) by {
            reveal_with_fuel(alloc_total, 5);
        }
        self.etfs.push(ETF {
            id: 3,
            name: String::from_str("DeFi Sharia ETF"),
            description: String::from_str("Decentralized finance tokens that comply with Sharia principles"),
            creator: self.owner,
            allocations: a3,
            is_template: true,
            total_value: 0,
        });
    }
}

} // verus!
