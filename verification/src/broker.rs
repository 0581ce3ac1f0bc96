//! The broker: the one entry point for submitting and cancelling orders,
//! and the read paths over the engine's state.

use crate::db::{DbError, DbErrorView};
use crate::mfa::{EmailConfig, EmailOtpProvider, MfaService};
use crate::money::Money;
use crate::order::{
    spec_duplicate_order_message, spec_holds_fresh_order_id, ClientId, Order, OrderId, OrderRepo,
    OrderRepoExt, OrderSide, OrderStatus, OrderType, Timestamp,
};
use crate::order_processing::{EngineState, ProcessingPool};
use crate::pre_trade::{
    spec_default_config, spec_validate_order, PreTradeError, PreTradeErrorView, PreTradeValidator,
};
use crate::sys::{fresh_id, now_micros, spec_kdf_verifies, ID_FORMAT_MASK, ID_FORMAT_RANDOM};
use crate::user::{
    lemma_ascii_password_len, spec_hash_refused, spec_is_hash_of, spec_users_wf, AuthError,
    AuthErrorView, UserId, UserRepo, UserRepoExt,
};
use vstd::prelude::*;
use vstd::string::StringExecFns;

verus! {

broadcast use vstd::std_specs::hash::group_hash_axioms;

/// The number of workers of a broker that is not told otherwise.
pub const DEFAULT_WORKERS: usize = 4;

/// Why an order could not be cancelled.
#[derive(Clone, Copy, Debug, PartialEq, Eq, Structural)]
pub enum CancelError {
    /// No order is stored under the identifier.
    OrderNotFound,
    /// The order is neither `Queued` nor `Pending`.
    CantCancel,
}

/// The broker: pre-trade validation in front of the processing pool, and
/// the second factor of signing in.
#[derive(Debug)]
pub struct BrokerX {
    pub mfa_service: MfaService<EmailOtpProvider>,
    pub pre_trade_validator: PreTradeValidator,
    pub processing_pool: ProcessingPool,
}

/// The balance that validation sees for `client`: an unknown user has
/// none.
pub open spec fn spec_balance_of(state: EngineState, client: ClientId) -> Money {
    if state.users.contains_key(client) {
        state.users[client].balance
    } else {
        Money { units: 0 }
    }
}

/// The state after accepting `order` under `id`: the order is stored in
/// status `Queued`, its identifier is last in the queue, and the pool runs.
pub open spec fn spec_accepted(state: EngineState, id: OrderId, order: Order) -> EngineState {
    EngineState {
        orders: state.orders.insert(id, Order { status: OrderStatus::Queued, ..order }),
        queue: state.queue.push(id),
        is_running: true,
        ..state
    }
}

/// The state after a request to cancel the order under `id`: an order that
/// is `Queued` or `Pending` becomes `PendingCancel` and goes to the tail of
/// the queue so that a worker carries the cancellation out; anything else
/// changes nothing.
pub open spec fn spec_cancel_requested(state: EngineState, id: OrderId) -> EngineState {
    if state.orders.contains_key(id) && (state.orders[id].status is Queued
        || state.orders[id].status is Pending) {
        EngineState {
            orders: state.orders.insert(
                id,
                Order { status: OrderStatus::PendingCancel, ..state.orders[id] },
            ),
            queue: state.queue.push(id),
            ..state
        }
    } else {
        state
    }
}

impl BrokerX {
    /// Every stored user is well-formed.
    pub open spec fn wf(&self) -> bool {
        self.processing_pool.wf()
    }

    /// The state of the engine.
    pub open spec fn state(&self) -> EngineState {
        self.processing_pool.shared_state@
    }

    /// A broker with the default rules and four workers over empty stores,
    /// mailing its codes from the account `email`.
    pub fn new(email: EmailConfig) -> (b: Self)
        ensures
            b.wf(),
            b.pre_trade_validator.config() == spec_default_config(),
            b.processing_pool.num_workers == DEFAULT_WORKERS,
            !b.processing_pool.should_stop,
            b.state() == (EngineState {
                orders: Map::empty(),
                users: Map::empty(),
                queue: Seq::empty(),
                is_running: false,
            }),
            b.mfa_service.spec_provider().spec_config() == email,
            b.mfa_service.spec_provider().challenges().len() == 0,
            b.mfa_service.spec_provider().outbox().len() == 0,
    {
        Self::with_thread_count(email, DEFAULT_WORKERS)
    }

    /// A broker with the default rules and `num_threads` workers over empty
    /// stores.
    pub fn with_thread_count(email: EmailConfig, num_threads: usize) -> (b: Self)
        ensures
            b.wf(),
            b.pre_trade_validator.config() == spec_default_config(),
            b.processing_pool.num_workers == num_threads,
            !b.processing_pool.should_stop,
            b.state() == (EngineState {
                orders: Map::empty(),
                users: Map::empty(),
                queue: Seq::empty(),
                is_running: false,
            }),
            b.mfa_service.spec_provider().spec_config() == email,
            b.mfa_service.spec_provider().challenges().len() == 0,
            b.mfa_service.spec_provider().outbox().len() == 0,
    {
        BrokerX {
            mfa_service: MfaService::new(EmailOtpProvider::new(email)),
            pre_trade_validator: PreTradeValidator::with_default_config(),
            processing_pool: ProcessingPool::new(num_threads),
        }
    }

    /// A broker over stored state, as after a restart: the orders that are
    /// not in a terminal status are queued again.
    pub fn restore(
        email: EmailConfig,
        order_repo: OrderRepo,
        user_repo: UserRepo,
        num_threads: usize,
    ) -> (b: Self)
        requires
            spec_users_wf(user_repo@),
        ensures
            b.wf(),
            b.pre_trade_validator.config() == spec_default_config(),
            b.processing_pool.num_workers == num_threads,
            !b.processing_pool.should_stop,
            b.state().orders == order_repo@,
            b.state().users == user_repo@,
            !b.state().is_running,
            b.mfa_service.spec_provider().spec_config() == email,
            b.mfa_service.spec_provider().challenges().len() == 0,
            b.mfa_service.spec_provider().outbox().len() == 0,
            crate::order_processing::spec_queues_live_orders(order_repo@, b.state().queue),
            exists|listed: Seq<crate::order::DatedId>|
                #![trigger crate::order_processing::spec_ids(listed)]
                {
                    &&& b.state().queue == crate::order_processing::spec_ids(listed)
                    &&& crate::order::spec_lists_selected(listed, order_repo@, None)
                    &&& crate::order::spec_newest_first(listed)
                },
    {
        BrokerX {
            mfa_service: MfaService::new(EmailOtpProvider::new(email)),
            pre_trade_validator: PreTradeValidator::with_default_config(),
            processing_pool: ProcessingPool::recover(order_repo, user_repo, num_threads),
        }
    }

    /// A broker for tests: one worker, and an account that mails nothing
    /// real.
    pub fn new_for_testing() -> (b: Self)
        ensures
            b.wf(),
            b.pre_trade_validator.config() == spec_default_config(),
            b.processing_pool.num_workers == 1,
            !b.processing_pool.should_stop,
            b.state() == (EngineState {
                orders: Map::empty(),
                users: Map::empty(),
                queue: Seq::empty(),
                is_running: false,
            }),
    {
        Self::new_for_testing_with_thread_count(1)
    }

    /// A broker for tests with `num_threads` workers.
    pub fn new_for_testing_with_thread_count(num_threads: usize) -> (b: Self)
        ensures
            b.wf(),
            b.pre_trade_validator.config() == spec_default_config(),
            b.processing_pool.num_workers == num_threads,
            !b.processing_pool.should_stop,
            b.state() == (EngineState {
                orders: Map::empty(),
                users: Map::empty(),
                queue: Seq::empty(),
                is_running: false,
            }),
    {
        BrokerX {
            mfa_service: MfaService::new(EmailOtpProvider::new(EmailConfig::for_testing())),
            pre_trade_validator: PreTradeValidator::with_default_config(),
            processing_pool: ProcessingPool::new_for_testing(num_threads),
        }
    }

    /// The store of users.
    pub fn get_user_repo(&self) -> (r: &UserRepo)
        ensures
            r@ == self.state().users,
    {
        &self.processing_pool.shared_state.user_repo
    }

    /// The store of orders.
    pub fn get_order_repo(&self) -> (r: &OrderRepo)
        ensures
            r@ == self.state().orders,
    {
        &self.processing_pool.shared_state.order_repo
    }

    /// Sets the pool running.
    pub fn start_order_processing(&mut self)
        ensures
            final(self).state() == (EngineState { is_running: true, ..old(self).state() }),
            final(self).processing_pool.should_stop == old(self).processing_pool.should_stop,
            final(self).processing_pool.num_workers == old(self).processing_pool.num_workers,
            final(self).pre_trade_validator == old(self).pre_trade_validator,
            final(self).mfa_service == old(self).mfa_service,
    {
        self.processing_pool.start();
    }

    /// Clears the run flag and tells the workers to stop.
    pub fn stop_order_processing(&mut self)
        ensures
            final(self).state() == (EngineState { is_running: false, ..old(self).state() }),
            final(self).processing_pool.should_stop,
            final(self).processing_pool.num_workers == old(self).processing_pool.num_workers,
            final(self).pre_trade_validator == old(self).pre_trade_validator,
            final(self).mfa_service == old(self).mfa_service,
    {
        self.processing_pool.stop();
    }

    /// The number of identifiers that await a step.
    pub fn queue_len(&self) -> (n: usize)
        ensures
            n == self.state().queue.len(),
    {
        self.processing_pool.queue_len()
    }

    /// The order under `order_id`.
    pub fn get_order_by_id(&self, order_id: &OrderId) -> (r: Option<Order>)
        ensures
            match r {
                Some(order) => self.state().orders.contains_key(*order_id) && order
                    == self.state().orders[*order_id],
                None => !self.state().orders.contains_key(*order_id),
            },
    {
        match self.processing_pool.shared_state.order_repo.get(order_id) {
            Some(order) => Some(order.clone()),
            None => None,
        }
    }

    /// The orders of `user_id` with their identifiers, each once, latest
    /// submission first.
    pub fn get_orders_for_user(&self, user_id: &UserId) -> (r: Result<
        Vec<(OrderId, Order)>,
        DbError,
    >)
        ensures
            r is Ok,
            ({
                let listed = r->Ok_0@;
                let orders = self.state().orders;
                &&& forall|i: int|
                    0 <= i < listed.len() ==> {
                        &&& orders.contains_key((#[trigger] listed[i]).0)
                        &&& orders[listed[i].0] == listed[i].1
                        &&& listed[i].1.client_id == *user_id
                    }
                &&& forall|i: int, j: int|
                    0 <= i < listed.len() && 0 <= j < listed.len() && (#[trigger] listed[i]).0 == (
                    #[trigger] listed[j]).0 ==> i == j
                &&& forall|id: OrderId| #[trigger]
                    orders.contains_key(id) && orders[id].client_id == *user_id ==> exists|i: int|
                        0 <= i < listed.len() && (#[trigger] listed[i]).0 == id
                &&& forall|i: int, j: int|
                    0 <= i <= j < listed.len() ==> listed[i].1.date >= listed[j].1.date
            }),
    {
        self.processing_pool.shared_state.order_repo.get_orders_for_user(user_id)
    }

    /// Submits an order under the identifier `id` at time `now`.
    ///
    /// The order is validated against the rules with the balance of the
    /// client, an unknown client counting as having none. An order that
    /// fails is refused with the rule's error and nothing changes. An
    /// order that passes is stored in status `Queued` and queued, unless
    /// the store refuses the identifier as taken.
    pub fn create_order_with(
        &mut self,
        client_id: ClientId,
        symbol: String,
        quantity: u64,
        order_side: OrderSide,
        order_type: OrderType,
        id: OrderId,
        now: Timestamp,
    ) -> (r: Result<OrderId, PreTradeError>)
        requires
            old(self).wf(),
        ensures
            final(self).wf(),
            final(self).processing_pool.should_stop == old(self).processing_pool.should_stop,
            final(self).processing_pool.num_workers == old(self).processing_pool.num_workers,
            final(self).pre_trade_validator == old(self).pre_trade_validator,
            final(self).mfa_service == old(self).mfa_service,
            ({
                let verdict = spec_validate_order(
                    old(self).pre_trade_validator.config(),
                    order_side,
                    order_type,
                    symbol@,
                    quantity,
                    spec_balance_of(old(self).state(), client_id),
                );
                match r {
                    Ok(got) => {
                        &&& got == id
                        &&& verdict is Ok
                        &&& !old(self).state().orders.contains_key(id)
                        &&& final(self).state() == spec_accepted(
                            old(self).state(),
                            id,
                            Order {
                                client_id,
                                date: now,
                                symbol,
                                quantity,
                                status: OrderStatus::Queued,
                                order_type,
                                order_side,
                            },
                        )
                    },
                    Err(e) => {
                        &&& final(self).state() == old(self).state()
                        &&& if verdict is Err {
                            verdict == Err::<(), PreTradeErrorView>(e@)
                        } else {
                            old(self).state().orders.contains_key(id) && e@
                                == PreTradeErrorView::DbError(
                                DbErrorView::SqlxError(spec_duplicate_order_message()),
                            )
                        }
                    },
                }
            }),
    {
        let user_balance = match self.processing_pool.shared_state.user_repo.get(&client_id) {
            Some(user) => user.balance,
            None => Money { units: 0 },
        };
        match self.pre_trade_validator.validate_order(
            &order_side,
            &order_type,
            symbol.as_str(),
            quantity,
            user_balance,
        ) {
            Ok(()) => {},
            Err(e) => {
                return Err(e);
            },
        }
        let order = Order {
            client_id,
            date: now,
            symbol,
            quantity,
            order_side,
            order_type,
            status: OrderStatus::Queued,
        };
        match self.processing_pool.shared_state.order_repo.insert_order(id, order) {
            Ok(order_id) => {
                self.processing_pool.submit_order(order_id);
                Ok(order_id)
            },
            Err(e) => Err(PreTradeError::DbError(e)),
        }
    }

    /// Submits an order under a fresh identifier at the current time.
    ///
    /// An order that fails validation is refused with the rule's error. An
    /// order that passes is accepted, unless the fresh identifier is taken,
    /// which takes a stored identifier of the form of a fresh one.
    pub fn create_order(
        &mut self,
        client_id: ClientId,
        symbol: String,
        quantity: u64,
        order_side: OrderSide,
        order_type: OrderType,
    ) -> (r: Result<OrderId, PreTradeError>)
        requires
            old(self).wf(),
        ensures
            final(self).wf(),
            final(self).processing_pool.should_stop == old(self).processing_pool.should_stop,
            final(self).processing_pool.num_workers == old(self).processing_pool.num_workers,
            final(self).pre_trade_validator == old(self).pre_trade_validator,
            final(self).mfa_service == old(self).mfa_service,
            ({
                let verdict = spec_validate_order(
                    old(self).pre_trade_validator.config(),
                    order_side,
                    order_type,
                    symbol@,
                    quantity,
                    spec_balance_of(old(self).state(), client_id),
                );
                match r {
                    Ok(id) => {
                        &&& verdict is Ok
                        &&& id & ID_FORMAT_MASK == ID_FORMAT_RANDOM
                        &&& !old(self).state().orders.contains_key(id)
                        &&& exists|now: Timestamp|
                            final(self).state() == #[trigger] spec_accepted(
                                old(self).state(),
                                id,
                                Order {
                                    client_id,
                                    date: now,
                                    symbol,
                                    quantity,
                                    status: OrderStatus::Queued,
                                    order_type,
                                    order_side,
                                },
                            )
                    },
                    Err(e) => {
                        &&& final(self).state() == old(self).state()
                        &&& verdict is Err ==> verdict == Err::<(), PreTradeErrorView>(e@)
                        &&& verdict is Ok ==> e@ == PreTradeErrorView::DbError(
                            DbErrorView::SqlxError(spec_duplicate_order_message()),
                        ) && spec_holds_fresh_order_id(old(self).state().orders)
                    },
                }
            }),
    {
        let id = fresh_id();
        let now = now_micros();
        let r =
            self.create_order_with(client_id, symbol, quantity, order_side, order_type, id, now);
        proof {
            if r is Err && old(self).state().orders.contains_key(id) {
                assert(spec_holds_fresh_order_id(old(self).state().orders));
            }
        }
        r
    }

    /// Asks for the order under `order_id` to be cancelled. An order that is
    /// `Queued` or `Pending` becomes `PendingCancel` and is queued so that a
    /// worker carries the cancellation out; any other order is refused and
    /// nothing changes.
    pub fn cancel_order(&mut self, order_id: OrderId) -> (r: Result<(), CancelError>)
        ensures
            final(self).state() == spec_cancel_requested(old(self).state(), order_id),
            final(self).wf() == old(self).wf(),
            final(self).processing_pool.should_stop == old(self).processing_pool.should_stop,
            final(self).processing_pool.num_workers == old(self).processing_pool.num_workers,
            final(self).pre_trade_validator == old(self).pre_trade_validator,
            final(self).mfa_service == old(self).mfa_service,
            r == (if !old(self).state().orders.contains_key(order_id) {
                Err::<(), CancelError>(CancelError::OrderNotFound)
            } else if old(self).state().orders[order_id].status is Queued || old(
                self,
            ).state().orders[order_id].status is Pending {
                Ok::<(), CancelError>(())
            } else {
                Err::<(), CancelError>(CancelError::CantCancel)
            }),
    {
        let ghost orders = self.processing_pool.shared_state.order_repo@;
        let cancellable = match self.processing_pool.shared_state.order_repo.get(&order_id) {
            Some(order) => match order.status {
                OrderStatus::Queued => true,
                OrderStatus::Pending => true,
                _ => false,
            },
            None => {
                return Err(CancelError::OrderNotFound);
            },
        };
        if !cancellable {
            return Err(CancelError::CantCancel);
        }
        match self.processing_pool.shared_state.order_repo.remove(&order_id) {
            Some(order) => {
                let mut order = order;
                order.status = OrderStatus::PendingCancel;
                self.processing_pool.shared_state.order_repo.insert(order_id, order);
                assert(self.processing_pool.shared_state.order_repo@ =~= orders.insert(
                    order_id,
                    order,
                ));
                self.processing_pool.shared_state.order_queue.push_back(order_id);
                Ok(())
            },
            None => {
                assert(false);
                Err(CancelError::OrderNotFound)
            },
        }
    }

    /// Registers a verified user to try the system out with, if the store
    /// of users is empty: `test@test.com`, password `aaaaaa`, balance
    /// 1000.00. Returns the identifier of the user it made, or nothing where
    /// the store holds users already. On an empty store it fails only
    /// where the password cannot be hashed.
    pub fn debug_populate(&mut self) -> (r: Result<Option<UserId>, AuthError>)
        requires
            old(self).wf(),
        ensures
            final(self).wf(),
            final(self).state().orders == old(self).state().orders,
            final(self).state().queue == old(self).state().queue,
            final(self).state().is_running == old(self).state().is_running,
            final(self).processing_pool.should_stop == old(self).processing_pool.should_stop,
            final(self).processing_pool.num_workers == old(self).processing_pool.num_workers,
            final(self).pre_trade_validator == old(self).pre_trade_validator,
            final(self).mfa_service == old(self).mfa_service,
            old(self).state().users.len() > 0 ==> (r matches Ok(None)),
            match r {
                Ok(Some(id)) => {
                    &&& old(self).state().users.len() == 0
                    &&& final(self).state().users.dom() == set![id]
                    &&& final(self).state().users[id]@.email == "test@test.com"@
                    &&& final(self).state().users[id]@.firstname == "Test"@
                    &&& final(self).state().users[id]@.surname == "User"@
                    &&& final(self).state().users[id]@.balance.units == 10_000_000
                    &&& final(self).state().users[id]@.is_verified
                    &&& final(self).state().users[id]@.id == Some(id)
                    &&& final(self).state().users[id]@.holdings.dom() == Set::<Seq<char>>::empty()
                    &&& spec_kdf_verifies(
                        "aaaaaa"@,
                        final(self).state().users[id]@.password_hash,
                    )
                    &&& spec_is_hash_of("aaaaaa"@, final(self).state().users[id]@.password_hash)
                },
                Ok(None) => old(self).state().users.len() > 0 && final(self).state().users == old(
                    self,
                ).state().users,
                Err(e) => {
                    &&& old(self).state().users.len() == 0
                    &&& final(self).state().users == old(self).state().users
                    &&& e@ == AuthErrorView::PasswordHashFailed
                    &&& spec_hash_refused("aaaaaa"@)
                },
            },
    {
        if self.processing_pool.shared_state.user_repo.len() > 0 {
            return Ok(None);
        }
        let ghost users = self.processing_pool.shared_state.user_repo@;
        proof {
            users.dom().lemma_len0_is_empty();
        }
        assert(users.dom() =~= Set::<UserId>::empty());
        proof {
            reveal_strlit("aaaaaa");
            lemma_ascii_password_len("aaaaaa"@);
        }
        let created = self.processing_pool.shared_state.user_repo.create_user(
            String::from_str("test@test.com"),
            String::from_str("aaaaaa"),
            String::from_str("Test"),
            String::from_str("User"),
            Money { units: 10_000_000 },
        );
        let id = match created {
            Ok(id) => id,
            Err(e) => {
                return Err(e);
            },
        };
        match self.processing_pool.shared_state.user_repo.verify_user_email(&id) {
            Ok(()) => {
                assert(self.processing_pool.shared_state.user_repo@.dom() =~= set![id]);
                Ok(Some(id))
            },
            Err(e) => {
                assert(false);
                Err(e)
            },
        }
    }
}

} // verus!
