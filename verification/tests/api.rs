use brokerx::api::{
    delete_order, get_order, get_orders_from_user, get_user, is_address, post_order,
    post_order_with, post_user, put_order, put_user, ApiReply, CreateOrderRequest,
    UpdateOrderRequest, UpdateUserRequest,
};
use brokerx::broker::BrokerX;
use brokerx::money::{Money, Price};
use brokerx::order::{OrderSide, OrderStatus, OrderType};
use brokerx::user::UserRepoExt;

fn money(whole: u64, frac: u64) -> Money {
    Money::from_parts(whole, frac).unwrap()
}

fn broker_with_user(balance: Money) -> (BrokerX, u128) {
    let mut broker = BrokerX::new_for_testing();
    let id = broker
        .processing_pool
        .shared_state
        .user_repo
        .create_user(
            "trader@example.com".to_string(),
            "secret-password".to_string(),
            "Tina".to_string(),
            "Trader".to_string(),
            balance,
        )
        .unwrap();
    (broker, id)
}

fn request(client: u128, quantity: u64, order_type: OrderType) -> CreateOrderRequest {
    CreateOrderRequest {
        client_id: client,
        symbol: "AAPL".to_string(),
        quantity,
        order_side: OrderSide::Buy,
        order_type,
    }
}

#[test]
fn a_valid_order_is_created() {
    let (mut broker, user) = broker_with_user(money(20_000, 0));
    let reply = post_order_with(
        &mut broker,
        request(user, 100, OrderType::Limit(Price::from_units(1_505_000))),
        5,
        9,
    );
    assert_eq!(reply.status(), 201);
    match reply {
        ApiReply::Created(order) => {
            assert_eq!(order.client_id, user);
            assert_eq!(order.date, 9);
            assert_eq!(order.symbol, "AAPL");
            assert_eq!(order.quantity, 100);
            assert_eq!(order.status, OrderStatus::Queued);
        }
        other => panic!("unexpected reply: {:?}", other),
    }
    assert_eq!(get_order(&broker, 5).status(), 200);
    assert_eq!(get_order(&broker, 6).status(), 404);
    let reply = post_order(&mut broker, request(user, 1, OrderType::Market));
    assert_eq!(reply.status(), 201);
    assert_eq!(broker.queue_len(), 2);
}

#[test]
fn a_refused_order_is_a_bad_request() {
    let (mut broker, user) = broker_with_user(money(1_000, 0));
    let reply = post_order(
        &mut broker,
        request(user, 100, OrderType::Limit(Price::from_units(1_505_000))),
    );
    match reply {
        ApiReply::BadRequest(m) => assert_eq!(
            m,
            "Order creation error: Insufficient buying power: required $15050.00, available $1000.00"
        ),
        other => panic!("unexpected reply: {:?}", other),
    }
    assert_eq!(broker.get_order_repo().len(), 0);
}

#[test]
fn a_store_failure_is_a_server_error() {
    let (mut broker, user) = broker_with_user(money(20_000, 0));
    post_order_with(&mut broker, request(user, 1, OrderType::Market), 5, 1);
    let reply = post_order_with(&mut broker, request(user, 2, OrderType::Market), 5, 2);
    assert_eq!(reply.status(), 500);
    match reply {
        ApiReply::InternalServerError(m) => {
            assert_eq!(m, "Database error: duplicate key value violates unique constraint")
        }
        other => panic!("unexpected reply: {:?}", other),
    }
}

#[test]
fn delete_asks_for_a_cancellation() {
    let (mut broker, user) = broker_with_user(money(20_000, 0));
    post_order_with(&mut broker, request(user, 1, OrderType::Market), 5, 1);
    assert_eq!(delete_order(&mut broker, 6).status(), 404);
    match delete_order(&mut broker, 5) {
        ApiReply::Success(order) => assert_eq!(order.status, OrderStatus::PendingCancel),
        other => panic!("unexpected reply: {:?}", other),
    }
    // A second request finds the cancellation pending.
    match delete_order(&mut broker, 5) {
        ApiReply::BadRequest(m) => assert_eq!(m, "Order cannot be cancelled"),
        other => panic!("unexpected reply: {:?}", other),
    }
    broker.processing_pool.worker_task_with(0, 2);
    assert_eq!(broker.get_order_by_id(&5).unwrap().status, OrderStatus::Cancelled);
    assert_eq!(delete_order(&mut broker, 5).status(), 400);
}

#[test]
fn put_only_cancels() {
    let (mut broker, user) = broker_with_user(money(20_000, 0));
    post_order_with(&mut broker, request(user, 1, OrderType::Market), 5, 1);
    assert_eq!(put_order(&mut broker, 6, UpdateOrderRequest { status: None }).status(), 404);
    match put_order(&mut broker, 5, UpdateOrderRequest { status: None }) {
        ApiReply::Success(order) => assert_eq!(order.status, OrderStatus::Queued),
        other => panic!("unexpected reply: {:?}", other),
    }
    let filled = UpdateOrderRequest { status: Some(OrderStatus::Filled { date: 1 }) };
    match put_order(&mut broker, 5, filled) {
        ApiReply::BadRequest(m) => assert_eq!(m, "Invalid request data"),
        other => panic!("unexpected reply: {:?}", other),
    }
    assert_eq!(broker.get_order_by_id(&5).unwrap().status, OrderStatus::Queued);
    let cancel = UpdateOrderRequest { status: Some(OrderStatus::Cancelled) };
    match put_order(&mut broker, 5, cancel) {
        ApiReply::Success(order) => assert_eq!(order.status, OrderStatus::PendingCancel),
        other => panic!("unexpected reply: {:?}", other),
    }
}

#[test]
fn users_are_read_with_their_orders() {
    let (mut broker, user) = broker_with_user(money(20_000, 0));
    match get_user(&broker, user) {
        ApiReply::Success(u) => assert_eq!(u.email, "trader@example.com"),
        other => panic!("unexpected reply: {:?}", other),
    }
    assert_eq!(get_user(&broker, user ^ 1).status(), 404);
    post_order_with(&mut broker, request(user, 1, OrderType::Market), 5, 1);
    post_order_with(&mut broker, request(user, 1, OrderType::Market), 6, 2);
    match get_orders_from_user(&broker, user) {
        ApiReply::Success(orders) => {
            let ids: Vec<u128> = orders.iter().map(|(id, _)| *id).collect();
            assert_eq!(ids, vec![6, 5]);
        }
        other => panic!("unexpected reply: {:?}", other),
    }
}

fn payload(
    firstname: Option<&str>,
    surname: Option<&str>,
    email: Option<&str>,
    password: Option<&str>,
) -> UpdateUserRequest {
    UpdateUserRequest {
        firstname: firstname.map(str::to_string),
        surname: surname.map(str::to_string),
        email: email.map(str::to_string),
        password: password.map(str::to_string),
    }
}

fn bad_request(reply: ApiReply<brokerx::user::User>) -> String {
    match reply {
        ApiReply::BadRequest(m) => m,
        other => panic!("unexpected reply: {:?}", other),
    }
}

#[test]
fn put_creates_a_user_that_is_not_there() {
    let mut broker = BrokerX::new_for_testing();
    let all = payload(Some("Ann"), Some("Example"), Some("ann@example.com"), Some("secret1"));
    match put_user(&mut broker, 42, all) {
        ApiReply::Created(u) => {
            assert_eq!(u.id, Some(42));
            assert_eq!(u.firstname, "Ann");
            assert_eq!(u.surname, "Example");
            assert_eq!(u.email, "ann@example.com");
            assert_eq!(u.balance, money(0, 0));
            assert!(!u.is_verified);
            assert!(u.verify_password("secret1"));
        }
        other => panic!("unexpected reply: {:?}", other),
    }
    assert_eq!(broker.get_user_repo().len(), 1);
    let missing = [
        (payload(None, Some("E"), Some("b@x.y"), Some("secret1")), "firstname"),
        (payload(Some("B"), None, Some("b@x.y"), Some("secret1")), "surname"),
        (payload(Some("B"), Some("E"), None, Some("secret1")), "email"),
        (payload(Some("B"), Some("E"), Some("b@x.y"), None), "password"),
    ];
    for (p, field) in missing {
        assert_eq!(
            bad_request(put_user(&mut broker, 43, p)),
            format!("{} is required for user creation", field)
        );
    }
    let weak = payload(Some("B"), Some("E"), Some("b@x.y"), Some("short"));
    assert_eq!(
        bad_request(put_user(&mut broker, 43, weak)),
        "User creation error: Password is too weak"
    );
    assert_eq!(broker.get_user_repo().len(), 1);
}

#[test]
fn put_changes_a_user_that_is_there() {
    let (mut broker, user) = broker_with_user(money(5, 0));
    match put_user(&mut broker, user, payload(Some("Tanja"), None, None, None)) {
        ApiReply::Success(u) => {
            assert_eq!(u.firstname, "Tanja");
            assert_eq!(u.surname, "Trader");
            assert_eq!(u.email, "trader@example.com");
            assert_eq!(u.balance, money(5, 0));
            assert!(u.verify_password("secret-password"));
        }
        other => panic!("unexpected reply: {:?}", other),
    }
    // The change is stored.
    let stored = broker.get_user_repo().get_user_by_id(&user).unwrap().unwrap();
    assert_eq!(stored.firstname, "Tanja");
    // Its own address is not in use by another.
    let same = payload(None, None, Some("trader@example.com"), Some("new-password"));
    match put_user(&mut broker, user, same) {
        ApiReply::Success(u) => assert!(u.verify_password("new-password")),
        other => panic!("unexpected reply: {:?}", other),
    }
    assert_eq!(
        bad_request(put_user(&mut broker, user, payload(None, None, None, Some("short")))),
        "Password error: Password is too weak"
    );
    assert_eq!(
        bad_request(put_user(&mut broker, user, payload(None, None, Some("nowhere"), None))),
        "Invalid email format"
    );
    assert_eq!(
        bad_request(put_user(
            &mut broker,
            user ^ 1,
            payload(None, None, Some("trader@example.com"), None)
        )),
        "Email already in use"
    );
    let stored = broker.get_user_repo().get_user_by_id(&user).unwrap().unwrap();
    assert!(stored.verify_password("new-password"));
}

#[test]
fn post_creates_a_user() {
    let mut broker = BrokerX::new_for_testing();
    let all = payload(Some("Ann"), Some("Example"), Some("ann@example.com"), Some("secret1"));
    let id = match post_user(&mut broker, all) {
        ApiReply::Created(u) => {
            assert_eq!(u.email, "ann@example.com");
            assert_eq!(u.balance, money(0, 0));
            u.id.unwrap()
        }
        other => panic!("unexpected reply: {:?}", other),
    };
    assert!(broker.get_user_repo().get_user_by_id(&id).unwrap().is_some());
    let again = payload(Some("Ann"), Some("Example"), Some("ann@example.com"), Some("secret1"));
    assert_eq!(bad_request(post_user(&mut broker, again)), "Email already in use");
    assert_eq!(
        bad_request(post_user(&mut broker, payload(None, None, Some("x"), None))),
        "Invalid email format"
    );
    assert_eq!(
        bad_request(post_user(&mut broker, payload(None, None, None, None))),
        "firstname is required for user creation"
    );
    let weak = payload(Some("B"), Some("E"), Some("b@x.y"), Some("short"));
    assert_eq!(
        bad_request(post_user(&mut broker, weak)),
        "User creation error: Password is too weak"
    );
    assert_eq!(broker.get_user_repo().len(), 1);
}

#[test]
fn an_address_holds_an_at_sign() {
    assert!(is_address("a@b"));
    assert!(is_address("@"));
    assert!(!is_address("a.b"));
    assert!(!is_address(""));
}
