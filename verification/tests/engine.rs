use brokerx::broker::{BrokerX, CancelError};
use brokerx::mfa::EmailConfig;
use brokerx::money::{Money, Price};
use brokerx::order::{Order, OrderRepo, OrderRepoExt, OrderSide, OrderStatus, OrderType};
use brokerx::order_processing::{
    execution_price, ProcessingPool, StepOutcome, WorkerAction, BACK_OFF_MS, IDLE_MS,
    WAIT_FOR_WORK_MS,
};
use brokerx::pre_trade::PreTradeError;
use brokerx::user::{AuthError, UserRepo, UserRepoExt};

fn price(whole: u64, frac: u64) -> Price {
    Price::from_parts(whole, frac).unwrap()
}

fn money(whole: u64, frac: u64) -> Money {
    Money::from_parts(whole, frac).unwrap()
}

/// A broker with one verified user of the given balance.
fn broker_with_user(balance: Money) -> (BrokerX, u128) {
    let mut broker = BrokerX::new_for_testing();
    let id = broker
        .processing_pool
        .shared_state
        .user_repo
        .create_user(
            "trader@example.com".to_string(),
            "secret-password".to_string(),
            "Tina".to_string(),
            "Trader".to_string(),
            balance,
        )
        .unwrap();
    broker
        .processing_pool
        .shared_state
        .user_repo
        .verify_user_email(&id)
        .unwrap();
    (broker, id)
}

fn status_of(broker: &BrokerX, id: u128) -> OrderStatus {
    broker.get_order_by_id(&id).unwrap().status
}

fn balance_of(broker: &BrokerX, user: u128) -> Money {
    broker.get_user_repo().get_user_balance(&user).unwrap()
}

#[test]
fn valid_limit_buy_is_queued_then_filled() {
    let (mut broker, user) = broker_with_user(money(20_000, 0));
    let id = broker
        .create_order_with(
            user,
            "AAPL".to_string(),
            100,
            OrderSide::Buy,
            OrderType::Limit(price(150, 5000)),
            77,
            1_000,
        )
        .unwrap();
    assert_eq!(id, 77);
    assert_eq!(status_of(&broker, id), OrderStatus::Queued);
    assert_eq!(broker.queue_len(), 1);
    assert!(broker.processing_pool.shared_state.is_running);

    // First turn: Queued becomes Pending and is queued again.
    let action = broker.processing_pool.worker_task_with(0, 2_000);
    assert_eq!(
        action,
        WorkerAction::Processed {
            order_id: id,
            outcome: StepOutcome::Promoted,
            back_off_ms: BACK_OFF_MS
        }
    );
    assert_eq!(status_of(&broker, id), OrderStatus::Pending);
    assert_eq!(broker.queue_len(), 1);

    // A draw that does not match leaves it pending.
    let action = broker.processing_pool.worker_task_with(5, 3_000);
    assert_eq!(
        action,
        WorkerAction::Processed {
            order_id: id,
            outcome: StepOutcome::StillPending,
            back_off_ms: BACK_OFF_MS
        }
    );
    assert_eq!(status_of(&broker, id), OrderStatus::Pending);
    assert_eq!(balance_of(&broker, user), money(20_000, 0));

    // A matching draw fills it at the execution price.
    let action = broker.processing_pool.worker_task_with(8, 4_000);
    assert_eq!(
        action,
        WorkerAction::Processed {
            order_id: id,
            outcome: StepOutcome::Filled,
            back_off_ms: BACK_OFF_MS
        }
    );
    assert_eq!(status_of(&broker, id), OrderStatus::Filled { date: 4_000 });
    assert_eq!(broker.queue_len(), 0);

    let p = execution_price("AAPL");
    assert_eq!(p, price(100, 0));
    assert_eq!(balance_of(&broker, user), money(10_000, 0));
    let owner = broker.get_user_repo().get_user_by_id(&user).unwrap().unwrap();
    let held = owner.holdings.get("AAPL").unwrap();
    assert_eq!(held.quantity, 100);
    assert_eq!(held.average_cost, p);
    assert_eq!(held.last_updated, 4_000);
}

#[test]
fn insufficient_funds_writes_no_order() {
    let (mut broker, user) = broker_with_user(money(1_000, 0));
    let result = broker.create_order(
        user,
        "AAPL".to_string(),
        100,
        OrderSide::Buy,
        OrderType::Limit(price(150, 5000)),
    );
    match result {
        Err(PreTradeError::InsufficientBuyingPower { required, available }) => {
            assert_eq!(required, money(15_050, 0));
            assert_eq!(available, money(1_000, 0));
        }
        other => panic!("unexpected outcome: {:?}", other),
    }
    assert_eq!(broker.get_order_repo().len(), 0);
    assert_eq!(broker.queue_len(), 0);
    assert!(!broker.processing_pool.shared_state.is_running);
}

#[test]
fn unknown_client_has_no_buying_power() {
    let mut broker = BrokerX::new_for_testing();
    let result = broker.create_order(
        42,
        "AAPL".to_string(),
        1,
        OrderSide::Buy,
        OrderType::Market,
    );
    match result {
        Err(PreTradeError::InsufficientBuyingPower { required, available }) => {
            assert_eq!(required, money(150, 0));
            assert_eq!(available, money(0, 0));
        }
        other => panic!("unexpected outcome: {:?}", other),
    }
}

#[test]
fn a_fill_for_an_unknown_owner_is_rejected() {
    let mut broker = BrokerX::new_for_testing();
    // A sale passes validation without a balance.
    let id = broker
        .create_order(7, "AAPL".to_string(), 5, OrderSide::Sell, OrderType::Market)
        .unwrap();
    let state = &mut broker.processing_pool.shared_state;
    assert_eq!(state.process_order_with(id, 0, 10), StepOutcome::Promoted);
    assert_eq!(state.process_order_with(id, 0, 20), StepOutcome::Rejected);
    assert_eq!(status_of(&broker, id), OrderStatus::Rejected { date: 20 });
    // The rejected order was not queued again: only the two entries that the
    // submission and the promotion queued are left.
    assert_eq!(broker.queue_len(), 2);
}

#[test]
fn a_buy_without_funds_at_fill_time_is_rejected() {
    let (mut broker, user) = broker_with_user(money(700, 0));
    // Validated at the limit price of 1.00, filled at the execution price.
    let id = broker
        .create_order(
            user,
            "AAPL".to_string(),
            10,
            OrderSide::Buy,
            OrderType::Limit(price(1, 0)),
        )
        .unwrap();
    let state = &mut broker.processing_pool.shared_state;
    assert_eq!(state.process_order_with(id, 0, 10), StepOutcome::Promoted);
    assert_eq!(state.process_order_with(id, 4, 20), StepOutcome::Rejected);
    assert_eq!(balance_of(&broker, user), money(700, 0));
    let owner = broker.get_user_repo().get_user_by_id(&user).unwrap().unwrap();
    assert!(owner.holdings.is_empty());
}

#[test]
fn terminal_orders_are_left_alone() {
    let (mut broker, user) = broker_with_user(money(20_000, 0));
    let id = broker
        .create_order(user, "AAPL".to_string(), 10, OrderSide::Buy, OrderType::Market)
        .unwrap();
    let state = &mut broker.processing_pool.shared_state;
    assert_eq!(state.process_order_with(id, 0, 10), StepOutcome::Promoted);
    assert_eq!(state.process_order_with(id, 0, 20), StepOutcome::Filled);
    let queue_before = state.order_queue.len();
    assert_eq!(state.process_order_with(id, 0, 30), StepOutcome::Unexpected);
    assert_eq!(state.order_queue.len(), queue_before);
    assert_eq!(status_of(&broker, id), OrderStatus::Filled { date: 20 });
    assert_eq!(balance_of(&broker, user), money(19_000, 0));
}

#[test]
fn a_step_for_a_missing_order_does_nothing() {
    let mut pool = ProcessingPool::new(2);
    assert_eq!(pool.num_workers, 2);
    assert_eq!(pool.shared_state.process_order_with(99, 0, 0), StepOutcome::Missing);
    assert_eq!(pool.queue_len(), 0);
}

#[test]
fn sell_fill_credits_cash_and_reduces_the_holding() {
    let (mut broker, user) = broker_with_user(money(5_000, 0));
    let buy = broker
        .create_order(user, "MSFT".to_string(), 10, OrderSide::Buy, OrderType::Market)
        .unwrap();
    let state = &mut broker.processing_pool.shared_state;
    state.process_order_with(buy, 0, 1);
    assert_eq!(state.process_order_with(buy, 0, 2), StepOutcome::Filled);
    assert_eq!(balance_of(&broker, user), money(4_000, 0));

    let sell = broker
        .create_order(user, "MSFT".to_string(), 4, OrderSide::Sell, OrderType::Market)
        .unwrap();
    let state = &mut broker.processing_pool.shared_state;
    state.process_order_with(sell, 0, 3);
    assert_eq!(state.process_order_with(sell, 0, 4), StepOutcome::Filled);
    assert_eq!(balance_of(&broker, user), money(4_400, 0));
    let owner = broker.get_user_repo().get_user_by_id(&user).unwrap().unwrap();
    assert_eq!(owner.holdings.get("MSFT").unwrap().quantity, 6);

    // Selling the rest removes the holding.
    let rest = broker
        .create_order(user, "MSFT".to_string(), 6, OrderSide::Sell, OrderType::Market)
        .unwrap();
    let state = &mut broker.processing_pool.shared_state;
    state.process_order_with(rest, 0, 5);
    assert_eq!(state.process_order_with(rest, 0, 6), StepOutcome::Filled);
    assert_eq!(balance_of(&broker, user), money(5_000, 0));
    let owner = broker.get_user_repo().get_user_by_id(&user).unwrap().unwrap();
    assert!(owner.holdings.get("MSFT").is_none());
    assert!(owner.holdings.is_empty());
}

#[test]
fn cancel_before_the_fill_ends_cancelled() {
    let (mut broker, user) = broker_with_user(money(20_000, 0));
    let id = broker
        .create_order(user, "AAPL".to_string(), 10, OrderSide::Buy, OrderType::Market)
        .unwrap();
    assert_eq!(broker.cancel_order(id), Ok(()));
    assert_eq!(status_of(&broker, id), OrderStatus::PendingCancel);
    assert_eq!(broker.queue_len(), 2);
    let queued: Vec<u128> = broker
        .processing_pool
        .shared_state
        .order_queue
        .iter()
        .copied()
        .collect();
    assert_eq!(queued, vec![id, id]);

    let action = broker.processing_pool.worker_task_with(0, 10);
    assert_eq!(
        action,
        WorkerAction::Processed {
            order_id: id,
            outcome: StepOutcome::Cancelled,
            back_off_ms: BACK_OFF_MS
        }
    );
    assert_eq!(status_of(&broker, id), OrderStatus::Cancelled);
    // No ledger change.
    assert_eq!(balance_of(&broker, user), money(20_000, 0));

    // The second queue entry finds the order in a terminal status.
    let action = broker.processing_pool.worker_task_with(0, 20);
    assert_eq!(
        action,
        WorkerAction::Processed {
            order_id: id,
            outcome: StepOutcome::Unexpected,
            back_off_ms: BACK_OFF_MS
        }
    );
    assert_eq!(status_of(&broker, id), OrderStatus::Cancelled);
    assert_eq!(broker.queue_len(), 0);
    assert_eq!(broker.cancel_order(id), Err(CancelError::CantCancel));
}

#[test]
fn cancel_after_the_fill_is_refused() {
    let (mut broker, user) = broker_with_user(money(20_000, 0));
    let id = broker
        .create_order(user, "AAPL".to_string(), 10, OrderSide::Buy, OrderType::Market)
        .unwrap();
    broker.processing_pool.worker_task_with(0, 10);
    broker.processing_pool.worker_task_with(0, 20);
    assert_eq!(status_of(&broker, id), OrderStatus::Filled { date: 20 });
    assert_eq!(broker.cancel_order(id), Err(CancelError::CantCancel));
    assert_eq!(status_of(&broker, id), OrderStatus::Filled { date: 20 });
    // The ledger shows the debit.
    assert_eq!(balance_of(&broker, user), money(19_000, 0));
    assert_eq!(broker.cancel_order(12345), Err(CancelError::OrderNotFound));
}

fn stored_order(client: u128, date: i64, status: OrderStatus) -> Order {
    Order {
        client_id: client,
        date,
        symbol: "AAPL".to_string(),
        quantity: 1,
        status,
        order_type: OrderType::Market,
        order_side: OrderSide::Sell,
    }
}

#[test]
fn restart_queues_what_is_not_terminal() {
    let mut users = UserRepo::new();
    let owner = users
        .create_user(
            "owner@example.com".to_string(),
            "secret-password".to_string(),
            "Olga".to_string(),
            "Owner".to_string(),
            money(0, 0),
        )
        .unwrap();
    let mut orders = OrderRepo::new();
    orders.insert(1, stored_order(owner, 100, OrderStatus::Queued));
    orders.insert(2, stored_order(owner, 200, OrderStatus::Pending));
    orders.insert(3, stored_order(owner, 300, OrderStatus::Filled { date: 5 }));
    orders.insert(4, stored_order(owner, 400, OrderStatus::Cancelled));

    let mut broker = BrokerX::restore(EmailConfig::for_testing(), orders, users, 2);
    assert_eq!(broker.processing_pool.num_workers, 2);
    let queued: Vec<u128> = broker
        .processing_pool
        .shared_state
        .order_queue
        .iter()
        .copied()
        .collect();
    // Latest submission first.
    assert_eq!(queued, vec![2, 1]);

    // A bounded number of turns later each has reached a terminal status.
    broker.start_order_processing();
    let mut turns = 0;
    while broker.queue_len() > 0 {
        broker.processing_pool.worker_task_with(0, 1_000 + turns);
        turns += 1;
        assert!(turns <= 10);
    }
    assert!(status_of(&broker, 1).is_terminal());
    assert!(status_of(&broker, 2).is_terminal());
    assert_eq!(status_of(&broker, 3), OrderStatus::Filled { date: 5 });
    assert_eq!(status_of(&broker, 4), OrderStatus::Cancelled);
    assert_eq!(balance_of(&broker, owner), money(200, 0));
}

#[test]
fn workers_wait_rest_and_exit() {
    let mut pool = ProcessingPool::new(4);
    // Not running, nothing queued: rest.
    assert_eq!(pool.worker_task_with(0, 0), WorkerAction::Idle { sleep_ms: IDLE_MS });
    pool.start();
    assert_eq!(
        pool.worker_task_with(0, 0),
        WorkerAction::WaitForWork { timeout_ms: WAIT_FOR_WORK_MS }
    );
    pool.submit_order(5);
    pool.stop();
    assert!(pool.should_stop);
    assert!(!pool.shared_state.is_running);
    // A stopped pool ends its workers and leaves the queue alone.
    assert_eq!(pool.worker_task_with(0, 0), WorkerAction::Exit);
    assert_eq!(pool.queue_len(), 1);
}

#[test]
fn worker_turns_with_real_draws_reach_a_terminal_status() {
    let (mut broker, user) = broker_with_user(money(20_000, 0));
    let id = broker
        .create_order(user, "TSLA".to_string(), 3, OrderSide::Buy, OrderType::Market)
        .unwrap();
    let mut turns = 0;
    while !status_of(&broker, id).is_terminal() {
        broker.processing_pool.worker_task();
        turns += 1;
        assert!(turns < 10_000);
    }
    assert!(matches!(status_of(&broker, id), OrderStatus::Filled { .. }));
    assert_eq!(balance_of(&broker, user), money(19_700, 0));
}

#[test]
fn orders_of_a_user_come_latest_first() {
    let (mut broker, user) = broker_with_user(money(20_000, 0));
    for (id, date) in [(10u128, 300i64), (11, 100), (12, 200)] {
        broker
            .create_order_with(
                user,
                "AAPL".to_string(),
                1,
                OrderSide::Buy,
                OrderType::Market,
                id,
                date,
            )
            .unwrap();
    }
    broker
        .create_order_with(999, "AAPL".to_string(), 1, OrderSide::Sell, OrderType::Market, 13, 400)
        .unwrap();
    let listed = broker.get_orders_for_user(&user).unwrap();
    let ids: Vec<u128> = listed.iter().map(|(id, _)| *id).collect();
    assert_eq!(ids, vec![10, 12, 11]);
    assert!(listed.iter().all(|(_, o)| o.client_id == user));
    assert!(broker.get_orders_for_user(&5).unwrap().is_empty());
}

#[test]
fn a_taken_identifier_is_refused_by_the_store() {
    let (mut broker, user) = broker_with_user(money(20_000, 0));
    broker
        .create_order_with(user, "AAPL".to_string(), 1, OrderSide::Buy, OrderType::Market, 10, 1)
        .unwrap();
    let again = broker.create_order_with(
        user,
        "AAPL".to_string(),
        2,
        OrderSide::Buy,
        OrderType::Market,
        10,
        2,
    );
    match again {
        Err(PreTradeError::DbError(e)) => {
            assert_eq!(
                e.message(),
                "Database error: duplicate key value violates unique constraint"
            );
        }
        other => panic!("unexpected outcome: {:?}", other),
    }
    assert_eq!(broker.get_order_by_id(&10).unwrap().quantity, 1);
    assert_eq!(broker.queue_len(), 1);
}

#[test]
fn fresh_orders_get_distinct_identifiers() {
    let mut orders = OrderRepo::new();
    let a = orders.create_order(stored_order(1, 1, OrderStatus::Pending)).unwrap();
    let b = orders.create_order(stored_order(1, 2, OrderStatus::Pending)).unwrap();
    assert_ne!(a, b);
    // Stored orders start out queued.
    assert_eq!(orders.get(&a).unwrap().status, OrderStatus::Queued);
    // Version 4, variant 1.
    assert_eq!((a >> 76) & 0xf, 4);
    assert_eq!((a >> 62) & 0x3, 2);
}

#[test]
fn debug_populate_registers_one_verified_user() {
    let mut broker = BrokerX::new_for_testing();
    let id = broker.debug_populate().unwrap().unwrap();
    let user = broker.get_user_repo().get_user_by_id(&id).unwrap().unwrap();
    assert_eq!(user.email, "test@test.com");
    assert_eq!(user.balance, money(1_000, 0));
    assert!(user.is_verified);
    assert!(user.verify_password("aaaaaa"));
    assert!(!user.verify_password("aaaaab"));
    // A second call finds the store populated.
    assert_eq!(broker.debug_populate().unwrap(), None);
    assert!(matches!(
        broker.get_user_repo().authenticate_user("test@test.com", "wrong"),
        Err(AuthError::InvalidPassword)
    ));
}

#[test]
fn steps_with_real_draws_reach_a_terminal_status() {
    let (mut broker, user) = broker_with_user(money(20_000, 0));
    let id = broker
        .create_order(user, "AAPL".to_string(), 2, OrderSide::Sell, OrderType::Market)
        .unwrap();
    assert_eq!(broker.processing_pool.process_order(id), StepOutcome::Promoted);
    let mut steps = 0;
    loop {
        match broker.processing_pool.process_order(id) {
            StepOutcome::StillPending => {}
            StepOutcome::Filled => break,
            other => panic!("unexpected outcome: {:?}", other),
        }
        steps += 1;
        assert!(steps < 10_000);
    }
    assert!(matches!(status_of(&broker, id), OrderStatus::Filled { .. }));
    assert_eq!(balance_of(&broker, user), money(20_200, 0));
    assert_eq!(broker.processing_pool.process_order(id), StepOutcome::Unexpected);
    assert_eq!(broker.processing_pool.process_order(id ^ 1), StepOutcome::Missing);
}

#[test]
fn a_cancel_at_any_moment_ends_filled_or_cancelled_and_books_once_or_never() {
    // Draws before the request, then draws after it; a multiple of four
    // matches a pending order.
    let runs: [(&[u32], u32); 6] = [
        (&[], 0),
        (&[0], 0),
        (&[0], 1),
        (&[0, 1], 0),
        (&[0, 1, 2, 3], 1),
        (&[0, 0], 1),
    ];
    for (before, after) in runs {
        let (mut broker, user) = broker_with_user(money(20_000, 0));
        let id = broker
            .create_order(user, "AAPL".to_string(), 10, OrderSide::Buy, OrderType::Market)
            .unwrap();
        let mut now: i64 = 0;
        for draw in before {
            now += 10;
            broker.processing_pool.worker_task_with(*draw, now);
        }
        let _ = broker.cancel_order(id);
        let mut turns = 0;
        while broker.queue_len() > 0 {
            now += 10;
            broker.processing_pool.worker_task_with(after, now);
            turns += 1;
            assert!(turns < 100);
        }
        let holder = broker.get_user_repo().get(&user).unwrap();
        let held = holder.holdings.get("AAPL").map(|h| h.quantity);
        match status_of(&broker, id) {
            OrderStatus::Filled { .. } => {
                assert_eq!(balance_of(&broker, user), money(19_000, 0));
                assert_eq!(held, Some(10));
            }
            OrderStatus::Cancelled => {
                assert_eq!(balance_of(&broker, user), money(20_000, 0));
                assert_eq!(held, None);
            }
            other => panic!("order ended as {:?}", other),
        }
        // Later turns and requests change nothing.
        let settled = status_of(&broker, id);
        let _ = broker.cancel_order(id);
        broker.processing_pool.process_order(id);
        assert_eq!(status_of(&broker, id), settled);
    }
}

#[test]
fn restart_queues_each_live_order_once_and_no_terminal_one() {
    let mut orders = OrderRepo::new();
    let statuses = [
        OrderStatus::Queued,
        OrderStatus::Filled { date: 5 },
        OrderStatus::Pending,
        OrderStatus::Cancelled,
        OrderStatus::PendingCancel,
        OrderStatus::Rejected { date: 6 },
        OrderStatus::Expired { date: 7 },
    ];
    let mut live: Vec<u128> = Vec::new();
    for (i, status) in statuses.iter().enumerate() {
        let id = 100 + i as u128;
        if !status.is_terminal() {
            live.push(id);
        }
        orders.insert(id, stored_order(1, i as i64, *status));
    }
    let pool = ProcessingPool::recover(orders, UserRepo::new(), 2);
    let mut queued: Vec<u128> = pool.shared_state.order_queue.iter().copied().collect();
    // Latest submission first.
    assert_eq!(queued, vec![104, 102, 100]);
    queued.sort();
    assert_eq!(queued, live);
}
