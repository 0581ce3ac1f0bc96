//! What the programming interface decides: for each request the status to
//! answer with, the body, and the change to the state.

use crate::broker::{spec_accepted, spec_balance_of, spec_cancel_requested, BrokerX, CancelError};
use crate::db::{DbErrorView, Document};
use crate::money::Money;
use crate::order::{
    spec_duplicate_order_message, spec_holds_fresh_order_id, ClientId, Order, OrderId, OrderSide,
    OrderStatus, OrderType, Timestamp,
};
use crate::order_processing::EngineState;
use crate::pre_trade::{spec_validate_order, PreTradeConfigView, PreTradeError};
use crate::sys::{fresh_id, now_micros, spec_kdf_verifies, ID_FORMAT_MASK, ID_FORMAT_RANDOM};
use crate::text::{chars_of, position, spec_position};
use crate::user::{
    spec_duplicate_key_message, spec_has_email, spec_hash_refused, spec_holds_fresh_id,
    spec_is_hash_of, spec_password_len, AuthErrorView, User, UserId, UserRepoExt, UserView,
    MIN_PASSWORD_LEN,
};
use crate::web::explain;
use vstd::prelude::*;
use vstd::string::StringExecFns;

verus! {

broadcast use vstd::std_specs::hash::group_hash_axioms;

/// The answer to a request.
#[derive(Debug)]
pub enum ApiReply<T> {
    /// 200, with a body.
    Success(T),
    /// 201, with the item that was created.
    Created(T),
    /// 400, with what was wrong with the request.
    BadRequest(String),
    /// 404.
    NotFound,
    /// 500, with what failed.
    InternalServerError(String),
}

impl<T> ApiReply<T> {
    /// The status code of the answer.
    pub open spec fn spec_status(&self) -> u16 {
        match self {
            ApiReply::Success(_) => 200,
            ApiReply::Created(_) => 201,
            ApiReply::BadRequest(_) => 400,
            ApiReply::NotFound => 404,
            ApiReply::InternalServerError(_) => 500,
        }
    }

    /// The status code of the answer.
    pub fn status(&self) -> (code: u16)
        ensures
            code == self.spec_status(),
    {
        match self {
            ApiReply::Success(_) => 200,
            ApiReply::Created(_) => 201,
            ApiReply::BadRequest(_) => 400,
            ApiReply::NotFound => 404,
            ApiReply::InternalServerError(_) => 500,
        }
    }
}

/// A request to submit an order.
#[derive(Debug)]
pub struct CreateOrderRequest {
    pub client_id: ClientId,
    pub symbol: String,
    pub quantity: u64,
    pub order_side: OrderSide,
    pub order_type: OrderType,
}

/// A request to change an order. Only a change to `Cancelled` means
/// anything.
#[derive(Debug)]
pub struct UpdateOrderRequest {
    pub status: Option<OrderStatus>,
}

/// A request to create or change a user. A change leaves out what stays.
#[derive(Debug)]
pub struct UpdateUserRequest {
    pub firstname: Option<String>,
    pub surname: Option<String>,
    pub email: Option<String>,
    pub password: Option<String>,
}

/// The answer to a submission, given its outcome and the order that is
/// stored under the new identifier: 201 with the order, 400 with the
/// message of the rule that refused it, 500 where the store failed.
pub fn submission_reply(outcome: Result<OrderId, PreTradeError>, stored: Option<Order>) -> (reply:
    ApiReply<Order>)
    ensures
        match outcome {
            Ok(_) => match stored {
                Some(order) => reply == ApiReply::Created(order),
                None => reply matches ApiReply::InternalServerError(m) && m@
                    == "Order not found after creation"@,
            },
            Err(PreTradeError::DbError(e)) => reply matches ApiReply::InternalServerError(m) && m@
                == e@.message(),
            Err(e) => reply matches ApiReply::BadRequest(m) && m@ == "Order creation error: "@
                + e@.message(),
        },
{
    match outcome {
        Ok(_) => match stored {
            Some(order) => ApiReply::Created(order),
            None => ApiReply::InternalServerError(
                String::from_str("Order not found after creation"),
            ),
        },
        Err(PreTradeError::DbError(e)) => ApiReply::InternalServerError(e.message()),
        Err(e) => {
            let detail = e.message();
            ApiReply::BadRequest(explain("Order creation error: ", detail.as_str()))
        },
    }
}

/// The order that a request asks for, dated `now` and in status `Queued`.
pub open spec fn spec_requested_order(payload: CreateOrderRequest, now: Timestamp) -> Order {
    Order {
        client_id: payload.client_id,
        date: now,
        symbol: payload.symbol,
        quantity: payload.quantity,
        status: OrderStatus::Queued,
        order_type: payload.order_type,
        order_side: payload.order_side,
    }
}

/// Whether `after` and `reply` are what submitting the order of `payload`
/// under the identifier `id` at time `now` makes of `before`, under the
/// rules `config`: 400 with the message of the rule that refuses the order,
/// 500 where the identifier is taken, else 201 with the order, which is
/// then stored and queued.
pub open spec fn spec_posted(
    config: PreTradeConfigView,
    before: EngineState,
    after: EngineState,
    payload: CreateOrderRequest,
    id: OrderId,
    now: Timestamp,
    reply: ApiReply<Order>,
) -> bool {
    let verdict = spec_validate_order(
        config,
        payload.order_side,
        payload.order_type,
        payload.symbol@,
        payload.quantity,
        spec_balance_of(before, payload.client_id),
    );
    let order = spec_requested_order(payload, now);
    match verdict {
        Err(e) => {
            &&& reply matches ApiReply::BadRequest(m) && m@ == "Order creation error: "@
                + e.message()
            &&& after == before
        },
        Ok(()) => {
            if before.orders.contains_key(id) {
                &&& reply matches ApiReply::InternalServerError(m) && m@ == DbErrorView::SqlxError(
                    spec_duplicate_order_message(),
                ).message()
                &&& after == before
            } else {
                &&& reply == ApiReply::Created(order)
                &&& after == spec_accepted(before, id, order)
            }
        },
    }
}

/// Submits the order of `payload` under the identifier `id` at time
/// `now`, and answers with the stored order or the refusal.
pub fn post_order_with(
    broker: &mut BrokerX,
    payload: CreateOrderRequest,
    id: OrderId,
    now: Timestamp,
) -> (reply: ApiReply<Order>)
    requires
        old(broker).wf(),
    ensures
        final(broker).wf(),
        final(broker).processing_pool.should_stop == old(broker).processing_pool.should_stop,
        final(broker).processing_pool.num_workers == old(broker).processing_pool.num_workers,
        final(broker).pre_trade_validator == old(broker).pre_trade_validator,
        final(broker).mfa_service == old(broker).mfa_service,
        spec_posted(
            old(broker).pre_trade_validator.config(),
            old(broker).state(),
            final(broker).state(),
            payload,
            id,
            now,
            reply,
        ),
{
    let outcome = broker.create_order_with(
        payload.client_id,
        payload.symbol,
        payload.quantity,
        payload.order_side,
        payload.order_type,
        id,
        now,
    );
    let stored = match &outcome {
        Ok(order_id) => broker.get_order_by_id(order_id),
        Err(_) => None,
    };
    submission_reply(outcome, stored)
}

/// Submits the order of `payload` under a fresh identifier at the
/// current time.
///
/// The answer is 400 if and only if a rule refuses the order. An order
/// that passes is answered with 201, stored and queued, unless the fresh
/// identifier is taken: then the answer is 500, which takes a stored
/// identifier of the form of a fresh one.
pub fn post_order(broker: &mut BrokerX, payload: CreateOrderRequest) -> (reply: ApiReply<Order>)
    requires
        old(broker).wf(),
    ensures
        final(broker).wf(),
        final(broker).processing_pool.should_stop == old(broker).processing_pool.should_stop,
        final(broker).processing_pool.num_workers == old(broker).processing_pool.num_workers,
        final(broker).pre_trade_validator == old(broker).pre_trade_validator,
        final(broker).mfa_service == old(broker).mfa_service,
        reply.spec_status() == 201 || reply.spec_status() == 400 || reply.spec_status() == 500,
        reply.spec_status() != 201 ==> final(broker).state() == old(broker).state(),
        (reply.spec_status() == 400) == (spec_validate_order(
            old(broker).pre_trade_validator.config(),
            payload.order_side,
            payload.order_type,
            payload.symbol@,
            payload.quantity,
            spec_balance_of(old(broker).state(), payload.client_id),
        ) is Err),
        reply.spec_status() == 500 ==> spec_holds_fresh_order_id(old(broker).state().orders),
        reply.spec_status() == 201 ==> exists|id: OrderId, now: Timestamp|
            {
                &&& id & ID_FORMAT_MASK == ID_FORMAT_RANDOM
                &&& !old(broker).state().orders.contains_key(id)
                &&& reply == ApiReply::Created(spec_requested_order(payload, now))
                &&& final(broker).state() == #[trigger] spec_accepted(
                    old(broker).state(),
                    id,
                    spec_requested_order(payload, now),
                )
            },
        exists|id: OrderId, now: Timestamp|
            id & ID_FORMAT_MASK == ID_FORMAT_RANDOM && #[trigger] spec_posted(
                old(broker).pre_trade_validator.config(),
                old(broker).state(),
                final(broker).state(),
                payload,
                id,
                now,
                reply,
            ),
{
    let id = fresh_id();
    let now = now_micros();
    let reply = post_order_with(broker, payload, id, now);
    proof {
        assert(spec_posted(
            old(broker).pre_trade_validator.config(),
            old(broker).state(),
            broker.state(),
            payload,
            id,
            now,
            reply,
        ));
        if reply.spec_status() == 500 {
            assert(old(broker).state().orders.contains_key(id));
            assert(spec_holds_fresh_order_id(old(broker).state().orders));
        }
        if reply.spec_status() == 201 {
            assert(broker.state() == spec_accepted(
                old(broker).state(),
                id,
                spec_requested_order(payload, now),
            ));
        }
    }
    reply
}

/// The order under `order_id`, or 404.
pub fn get_order(broker: &BrokerX, order_id: OrderId) -> (reply: ApiReply<Order>)
    ensures
        reply == (if broker.state().orders.contains_key(order_id) {
            ApiReply::Success(broker.state().orders[order_id])
        } else {
            ApiReply::NotFound
        }),
{
    match broker.get_order_by_id(&order_id) {
        Some(order) => ApiReply::Success(order),
        None => ApiReply::NotFound,
    }
}

/// The answer to a request to cancel the order under `order_id`, which
/// the request also carries out: 404 without such an order, 400 where the
/// order cannot be cancelled, else 200 with the order as it now is.
pub fn delete_order(broker: &mut BrokerX, order_id: OrderId) -> (reply: ApiReply<Order>)
    ensures
        final(broker).state() == spec_cancel_requested(old(broker).state(), order_id),
        final(broker).wf() == old(broker).wf(),
        final(broker).processing_pool.should_stop == old(broker).processing_pool.should_stop,
        final(broker).processing_pool.num_workers == old(broker).processing_pool.num_workers,
        final(broker).pre_trade_validator == old(broker).pre_trade_validator,
        final(broker).mfa_service == old(broker).mfa_service,
        ({
            let orders = old(broker).state().orders;
            if !orders.contains_key(order_id) {
                reply == ApiReply::<Order>::NotFound
            } else if orders[order_id].status is Queued || orders[order_id].status is Pending {
                reply == ApiReply::Success(
                    Order { status: OrderStatus::PendingCancel, ..orders[order_id] },
                )
            } else {
                reply matches ApiReply::BadRequest(m) && m@ == "Order cannot be cancelled"@
            }
        }),
{
    match broker.cancel_order(order_id) {
        Ok(()) => match broker.get_order_by_id(&order_id) {
            Some(order) => ApiReply::Success(order),
            None => ApiReply::NotFound,
        },
        Err(CancelError::OrderNotFound) => ApiReply::NotFound,
        Err(CancelError::CantCancel) => ApiReply::BadRequest(
            String::from_str("Order cannot be cancelled"),
        ),
    }
}

/// The answer to a request to change the order under `order_id`, which
/// the request also carries out. Without a status nothing changes and the
/// order is the answer; the status `Cancelled` asks for a cancellation;
/// any other status is refused.
pub fn put_order(broker: &mut BrokerX, order_id: OrderId, payload: UpdateOrderRequest) -> (reply:
    ApiReply<Order>)
    ensures
        final(broker).wf() == old(broker).wf(),
        final(broker).processing_pool.should_stop == old(broker).processing_pool.should_stop,
        final(broker).processing_pool.num_workers == old(broker).processing_pool.num_workers,
        final(broker).pre_trade_validator == old(broker).pre_trade_validator,
        final(broker).mfa_service == old(broker).mfa_service,
        ({
            let orders = old(broker).state().orders;
            if !orders.contains_key(order_id) {
                &&& reply == ApiReply::<Order>::NotFound
                &&& final(broker).state() == old(broker).state()
            } else {
                match payload.status {
                    None => {
                        &&& reply == ApiReply::Success(orders[order_id])
                        &&& final(broker).state() == old(broker).state()
                    },
                    Some(OrderStatus::Cancelled) => {
                        &&& final(broker).state() == spec_cancel_requested(
                            old(broker).state(),
                            order_id,
                        )
                        &&& if orders[order_id].status is Queued
                            || orders[order_id].status is Pending {
                            reply == ApiReply::Success(
                                Order { status: OrderStatus::PendingCancel, ..orders[order_id] },
                            )
                        } else {
                            reply matches ApiReply::BadRequest(m) && m@
                                == "Order cannot be cancelled"@
                        }
                    },
                    Some(_) => {
                        &&& reply matches ApiReply::BadRequest(m) && m@ == "Invalid request data"@
                        &&& final(broker).state() == old(broker).state()
                    },
                }
            }
        }),
{
    let order = match broker.get_order_by_id(&order_id) {
        Some(order) => order,
        None => {
            return ApiReply::NotFound;
        },
    };
    match payload.status {
        None => ApiReply::Success(order),
        Some(OrderStatus::Cancelled) => delete_order(broker, order_id),
        Some(_) => ApiReply::BadRequest(String::from_str("Invalid request data")),
    }
}

/// The user under `user_id`, or 404.
pub fn get_user(broker: &BrokerX, user_id: UserId) -> (reply: ApiReply<User>)
    ensures
        match reply {
            ApiReply::Success(user) => broker.state().users.contains_key(user_id) && user@
                == broker.state().users[user_id]@,
            ApiReply::NotFound => !broker.state().users.contains_key(user_id),
            _ => false,
        },
{
    match broker.get_user_repo().get_user_by_id(&user_id) {
        Ok(Some(user)) => ApiReply::Success(user),
        Ok(None) => ApiReply::NotFound,
        Err(e) => ApiReply::InternalServerError(e.message()),
    }
}

/// The orders of `user_id` with their identifiers, latest submission
/// first.
pub fn get_orders_from_user(broker: &BrokerX, user_id: UserId) -> (reply: ApiReply<
    Vec<(OrderId, Order)>,
>)
    ensures
        reply matches ApiReply::Success(listed) && ({
            let orders = broker.state().orders;
            &&& forall|i: int|
                0 <= i < listed@.len() ==> {
                    &&& orders.contains_key((#[trigger] listed@[i]).0)
                    &&& orders[listed@[i].0] == listed@[i].1
                    &&& listed@[i].1.client_id == user_id
                }
            &&& forall|i: int, j: int|
                0 <= i < listed@.len() && 0 <= j < listed@.len() && (#[trigger] listed@[i]).0 == (
                #[trigger] listed@[j]).0 ==> i == j
            &&& forall|id: OrderId| #[trigger]
                orders.contains_key(id) && orders[id].client_id == user_id ==> exists|i: int|
                    0 <= i < listed@.len() && (#[trigger] listed@[i]).0 == id
            &&& forall|i: int, j: int|
                0 <= i <= j < listed@.len() ==> listed@[i].1.date >= listed@[j].1.date
        }),
{
    match broker.get_orders_for_user(&user_id) {
        Ok(orders) => ApiReply::Success(orders),
        Err(e) => ApiReply::InternalServerError(e.message()),
    }
}

/// Whether `email` has the form of an address: it holds an `@`.
pub open spec fn spec_is_address(email: Seq<char>) -> bool {
    spec_position(email, '@') < email.len()
}

/// Whether `email` has the form of an address.
pub fn is_address(email: &str) -> (b: bool)
    ensures
        b == spec_is_address(email@),
{
    let chars = chars_of(email);
    position(&chars, '@') < chars.len()
}

/// Whether a user other than `user_id` is registered under `email`.
pub open spec fn spec_email_taken_by_other(
    users: Map<UserId, User>,
    email: Seq<char>,
    user_id: UserId,
) -> bool {
    exists|id: UserId|
        #[trigger] users.contains_key(id) && users[id]@.email == email && users[id]@.id is Some
            && users[id]@.id != Some(user_id)
}

/// What is wrong with the address of a request, if it has one.
pub open spec fn spec_address_error(
    users: Map<UserId, User>,
    email: Option<Seq<char>>,
    user_id: Option<UserId>,
) -> Option<Seq<char>> {
    match email {
        None => None,
        Some(e) => {
            if !spec_is_address(e) {
                Some("Invalid email format"@)
            } else if (match user_id {
                Some(id) => spec_email_taken_by_other(users, e, id),
                None => spec_has_email(users, e),
            }) {
                Some("Email already in use"@)
            } else {
                None
            }
        },
    }
}

/// Which of the fields that a new user needs is missing first.
pub open spec fn spec_missing_field(payload: UpdateUserRequest) -> Option<Seq<char>> {
    if payload.firstname is None {
        Some("firstname is required for user creation"@)
    } else if payload.surname is None {
        Some("surname is required for user creation"@)
    } else if payload.email is None {
        Some("email is required for user creation"@)
    } else if payload.password is None {
        Some("password is required for user creation"@)
    } else {
        None
    }
}

/// The fields of `user` after the changes of `payload`; the hash of a
/// new password is `hash`.
pub open spec fn spec_changed_user(
    user: UserView,
    payload: UpdateUserRequest,
    hash: Seq<char>,
) -> UserView {
    UserView {
        firstname: match payload.firstname {
            Some(f) => f@,
            None => user.firstname,
        },
        surname: match payload.surname {
            Some(s) => s@,
            None => user.surname,
        },
        email: match payload.email {
            Some(e) => e@,
            None => user.email,
        },
        password_hash: if payload.password is Some {
            hash
        } else {
            user.password_hash
        },
        ..user
    }
}

/// Whether `after` is `before` with the user under `id` replaced by
/// `user`, whose holdings are those of before.
pub open spec fn spec_user_replaced(
    before: Map<UserId, User>,
    after: Map<UserId, User>,
    id: UserId,
    user: User,
) -> bool {
    &&& before.contains_key(id)
    &&& after == before.insert(id, user)
    &&& user.holdings == before[id].holdings
}

/// What is answered where a password is refused: `prefix`, then the
/// message of a weak password where it is short, else that of a password
/// that cannot be hashed, which takes the hash function to refuse it.
pub open spec fn spec_password_refused(
    prefix: Seq<char>,
    password: Seq<char>,
    m: Seq<char>,
) -> bool {
    if spec_password_len(password) < MIN_PASSWORD_LEN {
        m == prefix + AuthErrorView::WeakPassword.message()
    } else {
        m == prefix + AuthErrorView::PasswordHashFailed.message() && spec_hash_refused(password)
    }
}

/// Creates the user `user_id` or changes it.
///
/// An address that is no address or belongs to another user is refused.
/// An existing user takes the fields that the request carries; a new
/// password must be long enough. A new user needs all four fields, starts
/// with a balance of zero and is stored under `user_id`.
pub fn put_user(broker: &mut BrokerX, user_id: UserId, payload: UpdateUserRequest) -> (reply:
    ApiReply<User>)
    requires
        old(broker).wf(),
    ensures
        final(broker).wf(),
        final(broker).state().orders == old(broker).state().orders,
        final(broker).state().queue == old(broker).state().queue,
        final(broker).state().is_running == old(broker).state().is_running,
        final(broker).processing_pool.should_stop == old(broker).processing_pool.should_stop,
        final(broker).processing_pool.num_workers == old(broker).processing_pool.num_workers,
        final(broker).pre_trade_validator == old(broker).pre_trade_validator,
        final(broker).mfa_service == old(broker).mfa_service,
        ({
            let users = old(broker).state().users;
            let now = final(broker).state().users;
            let address = spec_address_error(
                users,
                match payload.email {
                    Some(e) => Some(e@),
                    None => None,
                },
                Some(user_id),
            );
            if address is Some {
                reply matches ApiReply::BadRequest(m) && m@ == address->0 && now == users
            } else if users.contains_key(user_id) {
                match reply {
                    ApiReply::Success(user) => {
                        &&& spec_user_replaced(users, now, user_id, now[user_id])
                        &&& user@ == now[user_id]@
                        &&& now[user_id]@ == spec_changed_user(
                            users[user_id]@,
                            payload,
                            now[user_id]@.password_hash,
                        )
                        &&& payload.password matches Some(p) ==> spec_password_len(p@)
                            >= MIN_PASSWORD_LEN && spec_kdf_verifies(
                            p@,
                            now[user_id]@.password_hash,
                        ) && spec_is_hash_of(p@, now[user_id]@.password_hash)
                    },
                    ApiReply::BadRequest(m) => {
                        &&& now == users
                        &&& payload.password is Some
                        &&& spec_password_refused("Password error: "@, payload.password->0@, m@)
                    },
                    _ => false,
                }
            } else if spec_missing_field(payload) is Some {
                reply matches ApiReply::BadRequest(m) && m@ == spec_missing_field(payload)->0
                    && now == users
            } else {
                match reply {
                    ApiReply::Created(user) => {
                        &&& now.dom() == users.dom().insert(user_id)
                        &&& forall|other: UserId| #[trigger]
                            users.contains_key(other) ==> now[other] == users[other]
                        &&& user@ == now[user_id]@
                        &&& now[user_id]@.id == Some(user_id)
                        &&& now[user_id]@.firstname == payload.firstname->0@
                        &&& now[user_id]@.surname == payload.surname->0@
                        &&& now[user_id]@.email == payload.email->0@
                        &&& now[user_id]@.balance.units == 0
                        &&& !now[user_id]@.is_verified
                        &&& now[user_id]@.holdings.dom() == Set::<Seq<char>>::empty()
                        &&& spec_kdf_verifies(payload.password->0@, now[user_id]@.password_hash)
                        &&& spec_is_hash_of(payload.password->0@, now[user_id]@.password_hash)
                    },
                    ApiReply::BadRequest(m) => {
                        &&& now == users
                        &&& spec_password_refused(
                            "User creation error: "@,
                            payload.password->0@,
                            m@,
                        )
                    },
                    _ => false,
                }
            }
        }),
{
    let ghost users = broker.state().users;
    match &payload.email {
        Some(email) => {
            if !is_address(email.as_str()) {
                return ApiReply::BadRequest(String::from_str("Invalid email format"));
            }
            if email_taken_by_other(broker, email.as_str(), user_id) {
                return ApiReply::BadRequest(String::from_str("Email already in use"));
            }
        },
        None => {},
    }
    match broker.processing_pool.shared_state.user_repo.remove(&user_id) {
        Some(found) => {
            let ghost before = found;
            let mut user = found;
            match &payload.password {
                Some(password) => {
                    match user.update_password(password.as_str()) {
                        Ok(()) => {},
                        Err(e) => {
                            broker.processing_pool.shared_state.user_repo.insert(user_id, user);
                            assert(broker.state().users =~= users);
                            let detail = e.message();
                            assert(e@ == AuthErrorView::WeakPassword || e@
                                == AuthErrorView::PasswordHashFailed);
                            return ApiReply::BadRequest(
                                explain("Password error: ", detail.as_str()),
                            );
                        },
                    }
                },
                None => {},
            }
            match payload.firstname {
                Some(firstname) => {
                    user.firstname = firstname;
                },
                None => {},
            }
            match payload.surname {
                Some(surname) => {
                    user.surname = surname;
                },
                None => {},
            }
            match payload.email {
                Some(email) => {
                    user.email = email;
                },
                None => {},
            }
            let answer = user.clone();
            broker.processing_pool.shared_state.user_repo.insert(user_id, user);
            assert(broker.state().users =~= users.insert(user_id, user));
            ApiReply::Success(answer)
        },
        None => {
            assert(broker.state().users =~= users);
            let firstname = match payload.firstname {
                Some(f) => f,
                None => {
                    return ApiReply::BadRequest(
                        String::from_str("firstname is required for user creation"),
                    );
                },
            };
            let surname = match payload.surname {
                Some(s) => s,
                None => {
                    return ApiReply::BadRequest(
                        String::from_str("surname is required for user creation"),
                    );
                },
            };
            let email = match payload.email {
                Some(e) => e,
                None => {
                    return ApiReply::BadRequest(
                        String::from_str("email is required for user creation"),
                    );
                },
            };
            let password = match payload.password {
                Some(p) => p,
                None => {
                    return ApiReply::BadRequest(
                        String::from_str("password is required for user creation"),
                    );
                },
            };
            let created = User::new(email, password, firstname, surname, Money { units: 0 });
            let mut user = match created {
                Ok(user) => user,
                Err(e) => {
                    let detail = e.message();
                    assert(e@ == AuthErrorView::WeakPassword || e@
                        == AuthErrorView::PasswordHashFailed);
                    return ApiReply::BadRequest(
                        explain("User creation error: ", detail.as_str()),
                    );
                },
            };
            user.id = Some(user_id);
            let answer = user.clone();
            broker.processing_pool.shared_state.user_repo.insert(user_id, user);
            assert(broker.state().users.dom() =~= users.dom().insert(user_id));
            ApiReply::Created(answer)
        },
    }
}

/// Whether a user other than `user_id` is registered under `email`.
pub fn email_taken_by_other(broker: &BrokerX, email: &str, user_id: UserId) -> (b: bool)
    ensures
        b == spec_email_taken_by_other(broker.state().users, email@, user_id),
{
    let repo = broker.get_user_repo();
    let all = repo.find_all_by_field("email", email);
    let mut i: usize = 0;
    while i < all.len()
        invariant
            i <= all@.len(),
            repo@ == broker.state().users,
            crate::in_memory::spec_lists_matching(all@, repo@, "email"@, email@),
            forall|j: int|
                0 <= j < i ==> !((*(#[trigger] all@[j]).1)@.id is Some && (*all@[j].1)@.id != Some(
                    user_id,
                )),
        decreases all.len() - i,
    {
        let user: &User = all[i].1;
        match user.id {
            Some(id) => {
                if id != user_id {
                    proof {
                        let k = *all@[i as int].0;
                        assert(repo@.contains_key(k) && repo@[k] == *all@[i as int].1);
                        assert((*all@[i as int].1).spec_field("email"@) == Some(email@));
                        assert(repo@[k]@.email == email@);
                        let users = broker.state().users;
                        assert(users == repo@);
                        assert(users[k]@.id == Some(id));
                        assert(users.contains_key(k) && users[k]@.email == email@
                            && users[k]@.id is Some && users[k]@.id != Some(user_id));
                    }
                    return true;
                }
            },
            None => {},
        }
        i += 1;
    }
    assert forall|id: UserId|
        !(#[trigger] repo@.contains_key(id) && repo@[id]@.email == email@ && repo@[id]@.id is Some
            && repo@[id]@.id != Some(user_id)) by {
        if repo@.contains_key(id) && repo@[id]@.email == email@ {
            let k = choose|k: int| 0 <= k < all@.len() && *(#[trigger] all@[k]).0 == id;
            assert(repo@[*all@[k].0] == *all@[k].1);
        }
    }
    false
}

/// Creates a user under a fresh identifier.
///
/// An address that is no address or is taken is refused, then a request
/// that lacks one of the four fields. The user starts with a balance of
/// zero.
pub fn post_user(broker: &mut BrokerX, payload: UpdateUserRequest) -> (reply: ApiReply<User>)
    requires
        old(broker).wf(),
    ensures
        final(broker).wf(),
        final(broker).state().orders == old(broker).state().orders,
        final(broker).state().queue == old(broker).state().queue,
        final(broker).state().is_running == old(broker).state().is_running,
        final(broker).processing_pool.should_stop == old(broker).processing_pool.should_stop,
        final(broker).processing_pool.num_workers == old(broker).processing_pool.num_workers,
        final(broker).pre_trade_validator == old(broker).pre_trade_validator,
        final(broker).mfa_service == old(broker).mfa_service,
        ({
            let users = old(broker).state().users;
            let now = final(broker).state().users;
            let address = spec_address_error(
                users,
                match payload.email {
                    Some(e) => Some(e@),
                    None => None,
                },
                None,
            );
            if address is Some {
                reply matches ApiReply::BadRequest(m) && m@ == address->0 && now == users
            } else if spec_missing_field(payload) is Some {
                reply matches ApiReply::BadRequest(m) && m@ == spec_missing_field(payload)->0
                    && now == users
            } else {
                match reply {
                    ApiReply::Created(user) => {
                        &&& user@.id is Some
                        &&& !users.contains_key(user@.id->0)
                        &&& now.dom() == users.dom().insert(user@.id->0)
                        &&& forall|other: UserId| #[trigger]
                            users.contains_key(other) ==> now[other] == users[other]
                        &&& user@ == now[user@.id->0]@
                        &&& user@.firstname == payload.firstname->0@
                        &&& user@.surname == payload.surname->0@
                        &&& user@.email == payload.email->0@
                        &&& user@.balance.units == 0
                        &&& !user@.is_verified
                        &&& spec_kdf_verifies(payload.password->0@, user@.password_hash)
                        &&& spec_is_hash_of(payload.password->0@, user@.password_hash)
                    },
                    ApiReply::BadRequest(m) => {
                        &&& now == users
                        &&& {
                            ||| spec_password_refused(
                                "User creation error: "@,
                                payload.password->0@,
                                m@,
                            )
                            ||| spec_password_len(payload.password->0@) >= MIN_PASSWORD_LEN && m@
                                == "User creation error: "@ + AuthErrorView::UserRepo(
                                DbErrorView::SqlxError(spec_duplicate_key_message()),
                            ).message() && spec_holds_fresh_id(users)
                        }
                    },
                    _ => false,
                }
            }
        }),
{
    match &payload.email {
        Some(email) => {
            if !is_address(email.as_str()) {
                return ApiReply::BadRequest(String::from_str("Invalid email format"));
            }
            match broker.get_user_repo().email_exists(email.as_str()) {
                Ok(true) => {
                    return ApiReply::BadRequest(String::from_str("Email already in use"));
                },
                _ => {},
            }
        },
        None => {},
    }
    let firstname = match payload.firstname {
        Some(f) => f,
        None => {
            return ApiReply::BadRequest(
                String::from_str("firstname is required for user creation"),
            );
        },
    };
    let surname = match payload.surname {
        Some(s) => s,
        None => {
            return ApiReply::BadRequest(String::from_str("surname is required for user creation"));
        },
    };
    let email = match payload.email {
        Some(e) => e,
        None => {
            return ApiReply::BadRequest(String::from_str("email is required for user creation"));
        },
    };
    let password = match payload.password {
        Some(p) => p,
        None => {
            return ApiReply::BadRequest(
                String::from_str("password is required for user creation"),
            );
        },
    };
    let created = broker.processing_pool.shared_state.user_repo.create_user(
        email,
        password,
        firstname,
        surname,
        Money { units: 0 },
    );
    match created {
        Ok(id) => {
            match broker.get_user_repo().get_user_by_id(&id) {
                Ok(Some(user)) => ApiReply::Created(user),
                _ => {
                    assert(false);
                    ApiReply::InternalServerError(
                        String::from_str("User retrieval error after creation"),
                    )
                },
            }
        },
        Err(e) => {
            let detail = e.message();
            ApiReply::BadRequest(explain("User creation error: ", detail.as_str()))
        },
    }
}

} // verus!
