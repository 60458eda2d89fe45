use sharia_platform::{AccountId, Error, ShariaPlatform};

fn owner() -> AccountId {
    AccountId::from_low(1)
}

fn user() -> AccountId {
    AccountId::from_low(2)
}

fn other() -> AccountId {
    AccountId { hi: 7, lo: 2 }
}

fn s(x: &str) -> String {
    x.to_string()
}

fn with_btc() -> ShariaPlatform {
    let mut p = ShariaPlatform::new(owner());
    p.register_sharia_coin(owner(), s("BTC"), s("Bitcoin"), s("BTC"), s("reviewed")).unwrap();
    p
}

#[test]
fn seeded_templates() {
    let p = ShariaPlatform::new(owner());
    let t = p.get_template_etfs();
    assert_eq!(t.len(), 3);
    assert_eq!(t[0].id, 1);
    assert_eq!(t[0].name, "Major Sharia Coins ETF");
    assert_eq!(t[1].allocations, vec![(s("USDT"), 50), (s("USDC"), 30), (s("DAI"), 20)]);
    assert_eq!(t[2].id, 3);
    assert!(t.iter().all(|e| e.is_template && e.creator == owner() && e.total_value == 0));
    assert!(p.get_etf(1).is_none());
    assert!(p.get_sharia_coins().is_empty());
}

#[test]
fn scenario_a_first_user_basket_is_number_four() {
    let mut p = with_btc();
    let id = p.create_etf(user(), s("Mine"), s("All in"), vec![(s("BTC"), 100)]).unwrap();
    assert_eq!(id, 4);
    let e = p.get_etf(4).unwrap();
    assert_eq!(e.total_value, 0);
    assert_eq!(e.creator, user());
    assert!(!e.is_template);
    assert_eq!(e.allocations, vec![(s("BTC"), 100)]);
    let mine = p.get_user_etfs(user());
    assert_eq!(mine.len(), 1);
    assert_eq!(mine[0].id, 4);
}

#[test]
fn scenario_b_dca_lifecycle() {
    let mut p = with_btc();
    p.deposit(user(), 1000).unwrap();
    let now: u64 = 5_000;
    let h: u32 = 100;
    let id = p.create_dca_order(user(), now, h, s("BTC"), 100, 10, 3, now).unwrap();
    assert_eq!(id, 1);
    assert_eq!(p.get_dca_order(id).unwrap().next_execution_block, 110);
    assert_eq!(p.execute_dca_order(now, h + 9, id), Err(Error::OrderNotReady));
    assert_eq!(p.get_balance(user()), 1000);
    assert_eq!(p.execute_dca_order(now, h + 10, id), Ok(()));
    assert_eq!(p.get_balance(user()), 900);
    let o = p.get_dca_order(id).unwrap();
    assert_eq!(o.intervals_completed, 1);
    assert!(o.is_active);
    assert_eq!(o.next_execution_block, 120);
    assert_eq!(p.execute_dca_order(now, h + 20, id), Ok(()));
    assert_eq!(p.execute_dca_order(now, h + 30, id), Ok(()));
    let o = p.get_dca_order(id).unwrap();
    assert_eq!(o.intervals_completed, 3);
    assert!(!o.is_active);
    assert_eq!(p.get_balance(user()), 700);
    assert_eq!(p.execute_dca_order(now, h + 40, id), Err(Error::OrderInactive));
    assert_eq!(p.get_dca_order(id).unwrap().intervals_completed, 3);
}

#[test]
fn scenario_c_bad_sum_consumes_no_number() {
    let mut p = with_btc();
    assert_eq!(
        p.create_etf(user(), s("a"), s("b"), vec![(s("BTC"), 90)]),
        Err(Error::InvalidAllocation)
    );
    assert!(p.get_user_etfs(user()).is_empty());
    assert_eq!(p.create_etf(user(), s("a"), s("b"), vec![(s("BTC"), 100)]), Ok(4));
}

#[test]
fn scenario_d_subscribe_beyond_balance() {
    let mut p = ShariaPlatform::new(owner());
    p.deposit(user(), 50).unwrap();
    assert_eq!(p.subscribe_to_template_etf(user(), 1, 51), Err(Error::InsufficientBalance));
    assert_eq!(p.get_balance(user()), 50);
    assert!(p.get_user_etfs(user()).is_empty());
}

#[test]
fn sums_of_99_and_101_fail() {
    let mut p = with_btc();
    p.register_sharia_coin(owner(), s("ETH"), s("Ether"), s("ETH"), s("ok")).unwrap();
    assert_eq!(
        p.create_etf(user(), s("a"), s("b"), vec![(s("BTC"), 50), (s("ETH"), 49)]),
        Err(Error::InvalidAllocation)
    );
    assert_eq!(
        p.create_etf(user(), s("a"), s("b"), vec![(s("BTC"), 50), (s("ETH"), 51)]),
        Err(Error::InvalidAllocation)
    );
    assert_eq!(
        p.create_template_etf(owner(), s("a"), s("b"), vec![(s("BTC"), 99)]),
        Err(Error::InvalidAllocation)
    );
    assert_eq!(p.get_template_etfs().len(), 3);
    assert_eq!(p.create_etf(user(), s("a"), s("b"), vec![(s("BTC"), 50), (s("ETH"), 50)]), Ok(4));
}

#[test]
fn sum_is_not_taken_modulo_256() {
    let mut p = with_btc();
    let allocs = vec![(s("BTC"), 255), (s("BTC"), 101)];
    assert_eq!(p.create_etf(user(), s("a"), s("b"), allocs), Err(Error::InvalidAllocation));
}

#[test]
fn empty_allocation_fails() {
    let mut p = with_btc();
    assert_eq!(p.create_etf(user(), s("a"), s("b"), vec![]), Err(Error::InvalidAllocation));
}

#[test]
fn unknown_asset_in_allocation() {
    let mut p = with_btc();
    assert_eq!(
        p.create_etf(user(), s("a"), s("b"), vec![(s("BTC"), 60), (s("DOGE"), 40)]),
        Err(Error::InvalidCoinInAllocation)
    );
    assert_eq!(p.create_etf(user(), s("a"), s("b"), vec![(s("BTC"), 100)]), Ok(4));
}

#[test]
fn delisting_keeps_existing_baskets() {
    let mut p = with_btc();
    let id = p.create_etf(user(), s("a"), s("b"), vec![(s("BTC"), 100)]).unwrap();
    p.remove_sharia_coin(owner(), s("BTC")).unwrap();
    assert!(!p.is_sharia_compliant(s("BTC")));
    let e = p.get_etf(id).unwrap();
    assert_eq!(e.allocations, vec![(s("BTC"), 100)]);
    assert_eq!(
        p.create_etf(user(), s("a"), s("b"), vec![(s("BTC"), 100)]),
        Err(Error::InvalidCoinInAllocation)
    );
}

#[test]
fn registry_upsert_and_order() {
    let mut p = with_btc();
    p.register_sharia_coin(owner(), s("ETH"), s("Ether"), s("ETH"), s("r1")).unwrap();
    p.register_sharia_coin(owner(), s("BTC"), s("Bitcoin 2"), s("XBT"), s("r2")).unwrap();
    let c = p.get_sharia_coins();
    assert_eq!(c.len(), 2);
    assert_eq!(c[0].id, "BTC");
    assert_eq!(c[0].name, "Bitcoin 2");
    assert_eq!(c[0].symbol, "XBT");
    assert!(c[0].verified);
    assert_eq!(c[1].id, "ETH");
    p.remove_sharia_coin(owner(), s("BTC")).unwrap();
    let c = p.get_sharia_coins();
    assert_eq!(c.len(), 1);
    assert_eq!(c[0].id, "ETH");
    assert!(p.is_sharia_compliant(s("ETH")));
    assert!(!p.is_sharia_compliant(s("SOL")));
}

#[test]
fn registry_needs_owner() {
    let mut p = with_btc();
    assert_eq!(
        p.register_sharia_coin(user(), s("ETH"), s("Ether"), s("ETH"), s("r")),
        Err(Error::Unauthorized)
    );
    assert!(!p.is_sharia_compliant(s("ETH")));
    assert_eq!(p.remove_sharia_coin(user(), s("BTC")), Err(Error::Unauthorized));
    assert!(p.is_sharia_compliant(s("BTC")));
    assert_eq!(p.remove_sharia_coin(owner(), s("ETH")), Err(Error::CoinNotFound));
}

#[test]
fn templates_by_owner_only() {
    let mut p = with_btc();
    assert_eq!(
        p.create_template_etf(user(), s("t"), s("d"), vec![(s("BTC"), 100)]),
        Err(Error::Unauthorized)
    );
    assert_eq!(p.create_template_etf(owner(), s("t"), s("d"), vec![(s("BTC"), 100)]), Ok(4));
    let t = p.get_template_etfs();
    assert_eq!(t.len(), 4);
    assert_eq!(t[3].creator, owner());
    assert!(p.get_etf(4).is_none());
    assert!(p.get_user_etfs(owner()).is_empty());
}

#[test]
fn subscribe_copies_template_and_debits() {
    let mut p = ShariaPlatform::new(owner());
    p.deposit(user(), 500).unwrap();
    let id = p.subscribe_to_template_etf(user(), 2, 200).unwrap();
    assert_eq!(id, 4);
    assert_eq!(p.get_balance(user()), 300);
    let e = p.get_etf(id).unwrap();
    assert_eq!(e.name, "Sharia Stablecoins ETF");
    assert_eq!(e.allocations, vec![(s("USDT"), 50), (s("USDC"), 30), (s("DAI"), 20)]);
    assert_eq!(e.total_value, 200);
    assert_eq!(e.creator, user());
    assert_eq!(p.subscribe_to_template_etf(user(), 9, 0), Err(Error::ETFNotFound));
    assert_eq!(p.subscribe_to_template_etf(user(), 4, 0), Err(Error::ETFNotFound));
    assert_eq!(p.subscribe_to_template_etf(user(), 0, 0), Err(Error::ETFNotFound));
}

#[test]
fn subscribe_with_nothing() {
    let mut p = ShariaPlatform::new(owner());
    assert_eq!(p.subscribe_to_template_etf(other(), 3, 0), Ok(4));
    assert_eq!(p.get_balance(other()), 0);
    assert_eq!(p.get_user_etfs(other()).len(), 1);
    assert!(p.get_user_etfs(user()).is_empty());
}

#[test]
fn invest_in_basket() {
    let mut p = with_btc();
    let id = p.create_etf(user(), s("a"), s("b"), vec![(s("BTC"), 100)]).unwrap();
    p.deposit(user(), 100).unwrap();
    assert_eq!(p.invest_in_etf(user(), 99, 10), Err(Error::ETFNotFound));
    assert_eq!(p.invest_in_etf(user(), 1, 10), Err(Error::ETFNotFound));
    assert_eq!(p.invest_in_etf(other(), id, 10), Err(Error::ETFNotOwnedByUser));
    assert_eq!(p.invest_in_etf(user(), id, 101), Err(Error::InsufficientBalance));
    assert_eq!(p.get_etf(id).unwrap().total_value, 0);
    assert_eq!(p.invest_in_etf(user(), id, 40), Ok(()));
    assert_eq!(p.invest_in_etf(user(), id, 60), Ok(()));
    assert_eq!(p.get_etf(id).unwrap().total_value, 100);
    assert_eq!(p.get_balance(user()), 0);
}

#[test]
fn balances_start_at_zero_and_saturate() {
    let mut p = ShariaPlatform::new(owner());
    assert_eq!(p.get_balance(user()), 0);
    p.deposit(user(), 7).unwrap();
    p.deposit(other(), 3).unwrap();
    assert_eq!(p.get_balance(user()), 7);
    assert_eq!(p.get_balance(other()), 3);
    p.deposit(user(), u128::MAX).unwrap();
    assert_eq!(p.get_balance(user()), u128::MAX);
    assert_eq!(p.get_balance(other()), 3);
}

#[test]
fn invest_once_rules() {
    let mut p = with_btc();
    p.deposit(user(), 10).unwrap();
    assert_eq!(p.invest_once(user(), s("DOGE"), 1), Err(Error::NotShariaCompliant));
    assert_eq!(p.invest_once(user(), s("BTC"), 11), Err(Error::InsufficientBalance));
    assert_eq!(p.get_balance(user()), 10);
    assert_eq!(p.invest_once(user(), s("BTC"), 10), Ok(()));
    assert_eq!(p.get_balance(user()), 0);
    assert_eq!(p.invest_once(user(), s("BTC"), 1), Err(Error::InsufficientBalance));
}

#[test]
fn dca_creation_errors() {
    let mut p = with_btc();
    assert_eq!(
        p.create_dca_order(user(), 100, 1, s("DOGE"), 5, 2, 0, 100),
        Err(Error::NotShariaCompliant)
    );
    assert_eq!(
        p.create_dca_order(user(), 100, 1, s("BTC"), 5, 2, 0, 99),
        Err(Error::InvalidStartTime)
    );
    assert!(p.get_user_dca_orders(user()).is_empty());
    assert_eq!(p.create_dca_order(user(), 100, 1, s("BTC"), 5, 2, 0, 150), Ok(1));
}

#[test]
fn dca_execution_errors() {
    let mut p = with_btc();
    assert_eq!(p.execute_dca_order(0, 0, 1), Err(Error::DCAOrderNotFound));
    let id = p.create_dca_order(user(), 100, 1, s("BTC"), 5, 2, 0, 150).unwrap();
    assert_eq!(p.execute_dca_order(149, 10, id), Err(Error::OrderNotReady));
    assert_eq!(p.execute_dca_order(150, 10, id), Err(Error::InsufficientBalance));
    p.deposit(user(), 12).unwrap();
    assert_eq!(p.execute_dca_order(150, 10, id), Ok(()));
    assert_eq!(p.execute_dca_order(150, 10, id), Ok(()));
    assert_eq!(p.get_balance(user()), 2);
    let o = p.get_dca_order(id).unwrap();
    assert_eq!(o.intervals_completed, 2);
    assert!(o.is_active);
    assert_eq!(o.next_execution_block, 7);
}

#[test]
fn anyone_may_run_an_order() {
    let mut p = with_btc();
    p.deposit(user(), 10).unwrap();
    p.deposit(other(), 10).unwrap();
    let id = p.create_dca_order(user(), 0, 0, s("BTC"), 4, 1, 1, 0).unwrap();
    assert_eq!(p.execute_dca_order(0, 1, id), Ok(()));
    assert_eq!(p.get_balance(user()), 6);
    assert_eq!(p.get_balance(other()), 10);
    assert!(!p.get_dca_order(id).unwrap().is_active);
}

#[test]
fn cancel_twice_changes_nothing_more() {
    let mut p = with_btc();
    let id = p.create_dca_order(user(), 0, 0, s("BTC"), 4, 1, 5, 0).unwrap();
    assert_eq!(p.cancel_dca_order(other(), id), Err(Error::Unauthorized));
    assert!(p.get_dca_order(id).unwrap().is_active);
    assert_eq!(p.cancel_dca_order(user(), 2), Err(Error::DCAOrderNotFound));
    assert_eq!(p.cancel_dca_order(user(), id), Ok(()));
    let first = p.get_dca_order(id).unwrap();
    assert!(!first.is_active);
    assert_eq!(p.cancel_dca_order(user(), id), Ok(()));
    assert_eq!(p.get_dca_order(id).unwrap(), first);
    assert_eq!(p.execute_dca_order(0, 10, id), Err(Error::OrderInactive));
}

#[test]
fn orders_listed_per_owner() {
    let mut p = with_btc();
    let a = p.create_dca_order(user(), 0, 0, s("BTC"), 1, 1, 0, 0).unwrap();
    let b = p.create_dca_order(other(), 0, 0, s("BTC"), 2, 1, 0, 0).unwrap();
    let c = p.create_dca_order(user(), 0, 0, s("BTC"), 3, 1, 0, 0).unwrap();
    let mine: Vec<u32> = p.get_user_dca_orders(user()).iter().map(|o| o.id).collect();
    assert_eq!(mine, vec![a, c]);
    let theirs = p.get_user_dca_orders(other());
    assert_eq!(theirs.len(), 1);
    assert_eq!(theirs[0].id, b);
    assert_eq!(theirs[0].amount_per_interval, 2);
    assert!(p.get_dca_order(4).is_none());
    assert!(p.get_dca_order(0).is_none());
}
