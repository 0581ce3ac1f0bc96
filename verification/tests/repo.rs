use brokerx::account::{Account, AccountRepo, AccountRepoExt};
use brokerx::in_memory::InMemoryRepo;
use brokerx::money::{Money, Price, SignedMoney};
use brokerx::order::{
    sort_newest_first, DatedId, Order, OrderRepo, OrderRepoExt, OrderSide, OrderStatus, OrderType,
};
use brokerx::portfolio::Portfolio;

fn money(whole: u64, frac: u64) -> Money {
    Money::from_parts(whole, frac).unwrap()
}

#[test]
fn the_store_files_items_by_identifier() {
    let mut repo: InMemoryRepo<String, u64> = InMemoryRepo::new();
    assert!(repo.is_empty());
    repo.insert(1, "Alice".to_string());
    assert_eq!(repo.get(&1), Some(&"Alice".to_string()));
    repo.update(1, "Alice Updated".to_string());
    assert_eq!(repo.get(&1), Some(&"Alice Updated".to_string()));
    assert_eq!(repo.len(), 1);
    assert!(!repo.is_empty());
    assert_eq!(repo.remove(&1), Some("Alice Updated".to_string()));
    assert!(repo.get(&1).is_none());
    assert_eq!(repo.remove(&1), None);
    assert!(repo.is_empty());
}

#[test]
fn an_item_is_changed_in_place() {
    let mut repo: InMemoryRepo<u32, u64> = InMemoryRepo::new();
    repo.insert(7, 10);
    repo.insert(8, 20);
    *repo.get_mut(&7).unwrap() += 5;
    assert_eq!(repo.get(&7), Some(&15));
    assert_eq!(repo.get(&8), Some(&20));
    assert!(repo.get_mut(&9).is_none());
}

#[test]
fn every_pair_is_listed_once() {
    let mut repo: InMemoryRepo<u32, u64> = InMemoryRepo::new();
    for k in 0..20u64 {
        repo.insert(k, (k * k) as u32);
    }
    let mut listed: Vec<(u64, u32)> = repo.iter().into_iter().map(|(k, v)| (*k, *v)).collect();
    listed.sort();
    let expected: Vec<(u64, u32)> = (0..20u64).map(|k| (k, (k * k) as u32)).collect();
    assert_eq!(listed, expected);
}

fn order(client: u128, date: i64, symbol: &str, status: OrderStatus) -> Order {
    Order {
        client_id: client,
        date,
        symbol: symbol.to_string(),
        quantity: 1,
        status,
        order_type: OrderType::Limit(Price::from_units(10_000)),
        order_side: OrderSide::Buy,
    }
}

#[test]
fn orders_are_found_by_field() {
    let mut repo = OrderRepo::new();
    repo.insert(1, order(0xa1a2a3a4_b1b2_c1c2_d1d2_d3d4d5d6d7d8, 1, "AAPL", OrderStatus::Pending));
    repo.insert(2, order(5, 2, "MSFT", OrderStatus::Filled { date: 9 }));
    repo.insert(3, order(5, 3, "AAPL", OrderStatus::Pending));

    let mut pending: Vec<u128> = repo
        .find_all_by_field("status", "Pending")
        .into_iter()
        .map(|(id, _)| *id)
        .collect();
    pending.sort();
    assert_eq!(pending, vec![1, 3]);
    // The status is looked up by the name of its variant alone.
    assert_eq!(repo.find_all_by_field("status", "Filled").len(), 1);
    assert_eq!(repo.find_by_field("symbol", "MSFT").unwrap().date, 2);
    assert!(repo.find_by_field("symbol", "TSLA").is_none());
    assert!(repo.find_by_field("quantity", "1").is_none());
    // The client is looked up by the text of its identifier.
    let of_client = repo.find_all_by_field("client_id", "a1a2a3a4-b1b2-c1c2-d1d2-d3d4d5d6d7d8");
    assert_eq!(of_client.len(), 1);
    assert_eq!(*of_client[0].0, 1);
    assert_eq!(
        repo.find_all_by_field("client_id", "00000000-0000-0000-0000-000000000005").len(),
        2
    );
    assert!(repo.find_all_by_field("client_id", "5").is_empty());
}

#[test]
fn listings_select_and_sort() {
    let mut repo = OrderRepo::new();
    repo.insert(1, order(5, 10, "AAPL", OrderStatus::Queued));
    repo.insert(2, order(5, 30, "AAPL", OrderStatus::Cancelled));
    repo.insert(3, order(6, 20, "AAPL", OrderStatus::PendingCancel));
    repo.insert(4, order(5, 40, "AAPL", OrderStatus::Rejected { date: 1 }));
    repo.insert(5, order(6, 50, "AAPL", OrderStatus::Expired { date: 1 }));
    repo.insert(6, order(6, 60, "AAPL", OrderStatus::Pending));

    let live: Vec<u128> = repo.list_orders(None).iter().map(|d| d.id).collect();
    assert_eq!(live, vec![6, 3, 1]);
    let of_five: Vec<u128> = repo.list_orders(Some(5)).iter().map(|d| d.id).collect();
    assert_eq!(of_five, vec![4, 2, 1]);
    let listed = repo.get_orders_for_user(&6).unwrap();
    let ids: Vec<u128> = listed.iter().map(|(id, _)| *id).collect();
    assert_eq!(ids, vec![6, 5, 3]);
}

#[test]
fn sorting_puts_the_latest_first() {
    let v: Vec<DatedId> = [(1u128, 5i64), (2, 9), (3, -4), (4, 9), (5, 0)]
        .iter()
        .map(|(id, date)| DatedId { id: *id, date: *date })
        .collect();
    let sorted = sort_newest_first(&v);
    let dates: Vec<i64> = sorted.iter().map(|d| d.date).collect();
    assert_eq!(dates, vec![9, 9, 5, 0, -4]);
    let mut ids: Vec<u128> = sorted.iter().map(|d| d.id).collect();
    ids.sort();
    assert_eq!(ids, vec![1, 2, 3, 4, 5]);
    assert!(sort_newest_first(&Vec::new()).is_empty());
}

#[test]
fn status_tags_and_terminal_statuses() {
    let all = [
        (OrderStatus::Queued, "Queued", false),
        (OrderStatus::Pending, "Pending", false),
        (OrderStatus::PendingCancel, "PendingCancel", false),
        (OrderStatus::Cancelled, "Cancelled", true),
        (OrderStatus::Filled { date: 1 }, "Filled", true),
        (OrderStatus::Expired { date: 1 }, "Expired", true),
        (OrderStatus::Rejected { date: 1 }, "Rejected", true),
    ];
    for (status, tag, terminal) in all {
        assert_eq!(status.tag(), tag);
        assert_eq!(status.is_terminal(), terminal);
    }
}

#[test]
fn accounts_sign_in_and_move_money() {
    let mut repo = AccountRepo::new();
    let id = repo.create_account(
        "Ann".to_string(),
        "Example".to_string(),
        "ann@example.com".to_string(),
        "correct horse".to_string(),
        money(100, 0),
    );
    assert!(repo.email_exists("ann@example.com"));
    assert!(!repo.email_exists("bob@example.com"));
    assert_eq!(repo.get_account_id_by_email("ann@example.com"), Some(id));
    assert_eq!(repo.get_account_id_by_email("bob@example.com"), None);
    assert_eq!(repo.authenticate("ann@example.com", "correct horse"), Some(id));
    assert_eq!(repo.authenticate("ann@example.com", "wrong"), None);
    assert_eq!(repo.authenticate("bob@example.com", "correct horse"), None);

    assert_eq!(repo.get_balance(&id), Some(money(100, 0)));
    assert_eq!(repo.deposit_to_account(&id, money(50, 0)), Ok(()));
    assert_eq!(repo.get_balance(&id), Some(money(150, 0)));
    assert_eq!(repo.withdraw_from_account(&id, money(150, 1)), Err("Insufficient funds"));
    assert_eq!(repo.get_balance(&id), Some(money(150, 0)));
    assert_eq!(repo.withdraw_from_account(&id, money(150, 0)), Ok(()));
    assert_eq!(repo.get_balance(&id), Some(money(0, 0)));
    assert_eq!(repo.deposit_to_account(&(id ^ 1), money(1, 0)), Err("Account not found"));
    assert_eq!(repo.withdraw_from_account(&(id ^ 1), money(1, 0)), Err("Account not found"));
    assert_eq!(repo.get_balance(&(id ^ 1)), None);
    assert_eq!(repo.deposit_to_account(&id, Money::from_units(u128::MAX)), Ok(()));
    assert_eq!(
        repo.deposit_to_account(&id, Money::from_units(1)),
        Err("Balance out of range")
    );
}

#[test]
fn an_account_keeps_its_own_ledger() {
    let mut a = Account::new(
        "ann@example.com".to_string(),
        "Ann".to_string(),
        "Example".to_string(),
        "correct horse".to_string(),
        money(10, 0),
    );
    assert_eq!(a.email, "ann@example.com");
    assert_eq!(a.firstname, "Ann");
    assert_eq!(a.surname, "Example");
    assert!(a.verify_password("correct horse"));
    assert!(!a.verify_password("Correct horse"));
    a.deposit(money(5, 0));
    assert_eq!(a.balance(), money(15, 0));
    assert!(a.withdraw(money(16, 0)).is_err());
    assert!(a.withdraw(money(15, 0)).is_ok());
    assert_eq!(a.balance(), money(0, 0));
    let locked = Account::with_password_hash(
        "bob@example.com".to_string(),
        "Bob".to_string(),
        "Example".to_string(),
        None,
        money(0, 0),
    );
    assert!(!locked.verify_password(""));
}

#[test]
fn a_portfolio_shows_gain_and_loss() {
    let mut p = Portfolio::new_at(9, 77);
    assert_eq!(p.user_id, 9);
    assert_eq!(p.last_updated, 77);
    assert!(p.get_holdings_list().is_empty());
    assert_eq!(p.get_total_gain_loss(), SignedMoney { negative: false, units: 0 });
    assert_eq!(
        p.get_gain_loss_percentage(),
        Some(SignedMoney { negative: false, units: 0 })
    );
    p.total_cost = money(200, 0);
    p.total_value = money(250, 0);
    assert_eq!(p.get_total_gain_loss(), SignedMoney { negative: false, units: 500_000 });
    // 25 %
    assert_eq!(
        p.get_gain_loss_percentage(),
        Some(SignedMoney { negative: false, units: 250_000 })
    );
    p.total_value = money(150, 0);
    assert_eq!(p.get_total_gain_loss(), SignedMoney { negative: true, units: 500_000 });
    assert_eq!(
        p.get_gain_loss_percentage(),
        Some(SignedMoney { negative: true, units: 250_000 })
    );
    p.total_cost = money(3, 0);
    p.total_value = money(4, 0);
    // 33.3333 %, rounded towards zero
    assert_eq!(
        p.get_gain_loss_percentage(),
        Some(SignedMoney { negative: false, units: 333_333 })
    );
    p.total_value = Money::from_units(u128::MAX);
    assert_eq!(p.get_gain_loss_percentage(), None);
    assert_eq!(Portfolio::new(3).user_id, 3);
}
