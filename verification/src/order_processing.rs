//! The work queue and the per-order state machine.
//!
//! A step takes one order identifier from the queue, reads the order, moves
//! it along its state machine and writes it back; an order that is not yet
//! in a terminal status goes to the tail of the queue again. A fill books
//! the trade on the owner's ledger in the same step.

use crate::money::Price;
use crate::order::{
    Order, OrderId, OrderRepo, OrderRepoExt, OrderStatus, Timestamp, spec_lists_selected,
    spec_newest_first,
};
use crate::sys::{now_micros, random_draw};
use crate::user::{spec_users_wf, User, UserId, UserRepo};
use std::collections::VecDeque;
use vstd::prelude::*;

verus! {

broadcast use vstd::std_specs::hash::group_hash_axioms;

/// The price, in fixed-point units, at which every fill executes: 100.00.
pub const EXECUTION_PRICE_UNITS: u64 = 1_000_000;

/// A pending order is matched when its draw is a multiple of this number.
pub const DRAW_RANGE: u32 = 4;

/// How long an idle worker waits for work before it looks again, in
/// milliseconds.
pub const WAIT_FOR_WORK_MS: u64 = 1000;

/// How long a worker rests after a step, in milliseconds.
pub const BACK_OFF_MS: u64 = 10;

/// How long a worker rests when it found nothing to do, in milliseconds.
pub const IDLE_MS: u64 = 100;

/// The execution price of `symbol`.
pub open spec fn spec_execution_price(symbol: Seq<char>) -> Price {
    Price { units: EXECUTION_PRICE_UNITS }
}

/// The execution price of `symbol`: the one place that decides at which
/// price fills execute.
pub fn execution_price(symbol: &str) -> (p: Price)
    ensures
        p == spec_execution_price(symbol@),
{
    Price { units: EXECUTION_PRICE_UNITS }
}

/// Whether a draw matches a pending order.
pub open spec fn spec_fill_drawn(draw: u32) -> bool {
    draw % DRAW_RANGE == 0
}

/// The status after a step from `status`. `fill_drawn` says whether the
/// draw matched, `settled` whether the owner's ledger took the fill.
pub open spec fn spec_next_status(
    status: OrderStatus,
    fill_drawn: bool,
    settled: bool,
    now: Timestamp,
) -> OrderStatus {
    match status {
        OrderStatus::Queued => OrderStatus::Pending,
        OrderStatus::Pending => {
            if !fill_drawn {
                OrderStatus::Pending
            } else if settled {
                OrderStatus::Filled { date: now }
            } else {
                OrderStatus::Rejected { date: now }
            }
        },
        OrderStatus::PendingCancel => OrderStatus::Cancelled,
        _ => status,
    }
}

/// Whether a step from `status` puts the order back on the queue.
pub open spec fn spec_requeues(status: OrderStatus, fill_drawn: bool) -> bool {
    status is Queued || (status is Pending && !fill_drawn)
}

/// What a step did.
#[derive(Clone, Copy, Debug, PartialEq, Eq, Structural)]
pub enum StepOutcome {
    /// No order is stored under the identifier; nothing was done.
    Missing,
    /// `Queued` became `Pending`; the order was queued again.
    Promoted,
    /// The order stays `Pending` and was queued again.
    StillPending,
    /// The order was filled and the trade booked.
    Filled,
    /// The ledger could not take the fill, or the owner is unknown.
    Rejected,
    /// A requested cancellation was carried out.
    Cancelled,
    /// The order was in a terminal status already; nothing was done.
    Unexpected,
}

/// The outcome of a step from `status`.
pub open spec fn spec_outcome(status: OrderStatus, fill_drawn: bool, settled: bool) -> StepOutcome {
    match status {
        OrderStatus::Queued => StepOutcome::Promoted,
        OrderStatus::Pending => {
            if !fill_drawn {
                StepOutcome::StillPending
            } else if settled {
                StepOutcome::Filled
            } else {
                StepOutcome::Rejected
            }
        },
        OrderStatus::PendingCancel => StepOutcome::Cancelled,
        _ => StepOutcome::Unexpected,
    }
}

/// Whether `after` is `before` with the fill of `order` at `price` booked
/// on its owner and every other user untouched.
pub open spec fn spec_fill_booked(
    before: Map<UserId, User>,
    after: Map<UserId, User>,
    order: Order,
    price: Price,
    now: Timestamp,
) -> bool {
    &&& before.contains_key(order.client_id)
    &&& after.dom() == before.dom()
    &&& after[order.client_id].wf()
    &&& after[order.client_id]@ == User::spec_settled(
        before[order.client_id]@,
        order.order_side,
        order.symbol@,
        order.quantity,
        price,
        now,
    )
    &&& forall|other: UserId|
        other != order.client_id && #[trigger] before.contains_key(other) ==> after[other]
            == before[other]
}

/// Whether the owner of `order` is known and the ledger can take its fill.
pub open spec fn spec_can_fill(users: Map<UserId, User>, order: Order, price: Price) -> bool {
    users.contains_key(order.client_id) && users[order.client_id].spec_can_settle(
        order.order_side,
        order.symbol@,
        order.quantity,
        price,
    )
}

/// What the workers share: both stores, the queue of order identifiers
/// awaiting a step, and the run flag.
#[derive(Debug)]
pub struct SharedState {
    pub order_repo: OrderRepo,
    pub user_repo: UserRepo,
    pub order_queue: VecDeque<OrderId>,
    pub is_running: bool,
}

/// The mathematical value of a [`SharedState`].
pub struct EngineState {
    pub orders: Map<OrderId, Order>,
    pub users: Map<UserId, User>,
    pub queue: Seq<OrderId>,
    pub is_running: bool,
}

impl View for SharedState {
    type V = EngineState;

    open spec fn view(&self) -> EngineState {
        EngineState {
            orders: self.order_repo@,
            users: self.user_repo@,
            queue: self.order_queue@,
            is_running: self.is_running,
        }
    }
}

/// Whether `after` is what one step for `order_id` makes of `before`, with
/// the given draw, time and outcome.
///
/// An identifier without an order changes nothing. Otherwise the order
/// takes its next status, is queued again where its state machine says so,
/// and a fill is booked on the owner; an order in a terminal status is left
/// as it is.
pub open spec fn spec_step(
    before: EngineState,
    after: EngineState,
    order_id: OrderId,
    draw: u32,
    now: Timestamp,
    outcome: StepOutcome,
) -> bool {
    &&& after.is_running == before.is_running
    &&& spec_users_wf(before.users) ==> spec_users_wf(after.users)
    &&& if !before.orders.contains_key(order_id) {
        &&& outcome == StepOutcome::Missing
        &&& after.orders == before.orders
        &&& after.users == before.users
        &&& after.queue == before.queue
    } else {
        let order = before.orders[order_id];
        let price = spec_execution_price(order.symbol@);
        let fill = spec_fill_drawn(draw);
        let settled = spec_can_fill(before.users, order, price);
        let next = spec_next_status(order.status, fill, settled, now);
        &&& outcome == spec_outcome(order.status, fill, settled)
        &&& after.orders == if order.status.spec_is_terminal() {
            before.orders
        } else {
            before.orders.insert(order_id, Order { status: next, ..order })
        }
        &&& after.queue == if spec_requeues(order.status, fill) {
            before.queue.push(order_id)
        } else {
            before.queue
        }
        &&& if outcome == StepOutcome::Filled {
            spec_fill_booked(before.users, after.users, order, price, now)
        } else {
            after.users == before.users
        }
    }
}

impl SharedState {
    /// One step of the state machine of the order under `order_id`, with
    /// the given draw and time.
    pub fn process_order_with(&mut self, order_id: OrderId, draw: u32, now: Timestamp) -> (outcome:
        StepOutcome)
        requires
            spec_users_wf(old(self).user_repo@),
        ensures
            spec_users_wf(final(self).user_repo@),
            spec_step(old(self)@, final(self)@, order_id, draw, now, outcome),
    {
        let ghost orders = self.order_repo@;
        let ghost users = self.user_repo@;
        let mut order = match self.order_repo.remove(&order_id) {
            Some(order) => order,
            None => {
                assert(self.order_repo@ =~= orders);
                return StepOutcome::Missing;
            },
        };
        match order.status {
            OrderStatus::Queued => {
                order.status = OrderStatus::Pending;
                self.order_repo.insert(order_id, order);
                self.order_queue.push_back(order_id);
                assert(self.order_repo@ =~= orders.insert(order_id, order));
                StepOutcome::Promoted
            },
            OrderStatus::Pending => {
                if draw % DRAW_RANGE == 0 {
                    let price = execution_price(order.symbol.as_str());
                    let settled = match self.user_repo.remove(&order.client_id) {
                        Some(user) => {
                            let mut user = user;
                            let ok = user.settle(
                                order.order_side,
                                order.symbol.as_str(),
                                order.quantity,
                                price,
                                now,
                            );
                            self.user_repo.insert(order.client_id, user);
                            proof {
                                if ok {
                                    assert(self.user_repo@.dom() =~= users.dom());
                                } else {
                                    assert(self.user_repo@ =~= users);
                                }
                            }
                            ok
                        },
                        None => {
                            assert(self.user_repo@ =~= users);
                            false
                        },
                    };
                    if settled {
                        order.status = OrderStatus::Filled { date: now };
                    } else {
                        order.status = OrderStatus::Rejected { date: now };
                    }
                    self.order_repo.insert(order_id, order);
                    assert(self.order_repo@ =~= orders.insert(order_id, order));
                    if settled {
                        StepOutcome::Filled
                    } else {
                        StepOutcome::Rejected
                    }
                } else {
                    self.order_repo.insert(order_id, order);
                    self.order_queue.push_back(order_id);
                    assert(self.order_repo@ =~= orders.insert(order_id, order));
                    StepOutcome::StillPending
                }
            },
            OrderStatus::PendingCancel => {
                order.status = OrderStatus::Cancelled;
                self.order_repo.insert(order_id, order);
                assert(self.order_repo@ =~= orders.insert(order_id, order));
                StepOutcome::Cancelled
            },
            _ => {
                self.order_repo.insert(order_id, order);
                assert(self.order_repo@ =~= orders);
                StepOutcome::Unexpected
            },
        }
    }
}

/// What a worker does next.
#[derive(Clone, Copy, Debug, PartialEq, Eq, Structural)]
pub enum WorkerAction {
    /// The pool was told to stop: the worker ends.
    Exit,
    /// Nothing is queued while the pool runs: wait for the signal that work
    /// is available, at most this long.
    WaitForWork { timeout_ms: u64 },
    /// An order took a step: rest this long before the next.
    Processed { order_id: OrderId, outcome: StepOutcome, back_off_ms: u64 },
    /// Nothing is queued and the pool does not run: rest this long.
    Idle { sleep_ms: u64 },
}

/// The workers' shared state with the stop flag and the number of workers
/// that serve it.
#[derive(Debug)]
pub struct ProcessingPool {
    pub shared_state: SharedState,
    pub num_workers: usize,
    pub should_stop: bool,
}

/// The identifiers of a listing, in its order.
pub open spec fn spec_ids(listed: Seq<crate::order::DatedId>) -> Seq<OrderId> {
    Seq::new(listed.len(), |i: int| listed[i].id)
}

/// Whether `queue` holds every order of `rows` that is not in a terminal
/// status, each exactly once, and nothing else.
pub open spec fn spec_queues_live_orders(rows: Map<OrderId, Order>, queue: Seq<OrderId>) -> bool {
    &&& queue.no_duplicates()
    &&& forall|id: OrderId| #[trigger]
        queue.contains(id) <==> rows.contains_key(id) && !rows[id].status.spec_is_terminal()
}

/// The identifiers of a listing of the orders that are not in a terminal
/// status are such a queue.
pub proof fn lemma_listing_queues_live_orders(
    listed: Seq<crate::order::DatedId>,
    rows: Map<OrderId, Order>,
)
    requires
        spec_lists_selected(listed, rows, None),
    ensures
        spec_queues_live_orders(rows, spec_ids(listed)),
{
    let queue = spec_ids(listed);
    assert forall|i: int, j: int| 0 <= i < queue.len() && 0 <= j < queue.len() && i != j implies
        queue[i] != queue[j] by {
        assert(listed[i].id == queue[i] && listed[j].id == queue[j]);
    }
    assert forall|id: OrderId| #[trigger]
        queue.contains(id) <==> rows.contains_key(id) && !rows[id].status.spec_is_terminal() by {
        if queue.contains(id) {
            let i = choose|i: int| 0 <= i < queue.len() && queue[i] == id;
            assert(listed[i].id == id);
        }
        if rows.contains_key(id) && !rows[id].status.spec_is_terminal() {
            assert(crate::order::spec_selected(rows[id], None));
            let i = choose|i: int| 0 <= i < listed.len() && (#[trigger] listed[i]).id == id;
            assert(queue[i] == id);
        }
    }
}

/// Whether `after` and `action` are what one turn of a worker makes of
/// `before`: a stopped pool ends the worker; an empty queue makes it wait
/// while the pool runs and rest otherwise; else the head of the queue takes
/// one step.
pub open spec fn spec_worker_turn(
    before: EngineState,
    should_stop: bool,
    after: EngineState,
    draw: u32,
    now: Timestamp,
    action: WorkerAction,
) -> bool {
    if should_stop {
        action == WorkerAction::Exit && after == before
    } else if before.queue.len() == 0 {
        &&& after == before
        &&& action == if before.is_running {
            WorkerAction::WaitForWork { timeout_ms: WAIT_FOR_WORK_MS }
        } else {
            WorkerAction::Idle { sleep_ms: IDLE_MS }
        }
    } else {
        let popped = EngineState {
            queue: before.queue.subrange(1, before.queue.len() as int),
            ..before
        };
        exists|outcome: StepOutcome|
            #[trigger] spec_step(popped, after, before.queue[0], draw, now, outcome) && action == (
            WorkerAction::Processed {
                order_id: before.queue[0],
                outcome,
                back_off_ms: BACK_OFF_MS,
            })
    }
}

impl ProcessingPool {
    /// Every stored user is well-formed.
    pub open spec fn wf(&self) -> bool {
        spec_users_wf(self.shared_state.user_repo@)
    }

    /// A pool over empty stores, for `num_threads` workers: there is no
    /// order to take up again, so nothing is queued. It does not run yet.
    /// [`ProcessingPool::recover`] makes a pool over stores that hold
    /// something.
    pub fn new(num_threads: usize) -> (pool: Self)
        ensures
            pool.wf(),
            pool.shared_state@ == (EngineState {
                orders: Map::empty(),
                users: Map::empty(),
                queue: Seq::empty(),
                is_running: false,
            }),
            spec_queues_live_orders(pool.shared_state@.orders, pool.shared_state@.queue),
            !pool.should_stop,
            pool.num_workers == num_threads,
    {
        ProcessingPool {
            shared_state: SharedState {
                order_repo: OrderRepo::new(),
                user_repo: UserRepo::new(),
                order_queue: VecDeque::new(),
                is_running: false,
            },
            num_workers: num_threads,
            should_stop: false,
        }
    }

    /// A pool over empty stores for tests.
    pub fn new_for_testing(num_threads: usize) -> (pool: Self)
        ensures
            pool.wf(),
            pool.shared_state@ == (EngineState {
                orders: Map::empty(),
                users: Map::empty(),
                queue: Seq::empty(),
                is_running: false,
            }),
            !pool.should_stop,
            pool.num_workers == num_threads,
    {
        Self::new(num_threads)
    }

    /// A pool over stored state: every order that is not in a terminal
    /// status is queued, once, latest submission first, and no other. It
    /// does not run yet.
    pub fn recover(order_repo: OrderRepo, user_repo: UserRepo, num_threads: usize) -> (pool: Self)
        requires
            spec_users_wf(user_repo@),
        ensures
            pool.wf(),
            pool.shared_state.order_repo@ == order_repo@,
            pool.shared_state.user_repo@ == user_repo@,
            !pool.shared_state.is_running,
            !pool.should_stop,
            pool.num_workers == num_threads,
            spec_queues_live_orders(order_repo@, pool.shared_state.order_queue@),
            exists|listed: Seq<crate::order::DatedId>|
                #![trigger spec_ids(listed)]
                {
                    &&& pool.shared_state.order_queue@ == spec_ids(listed)
                    &&& spec_lists_selected(listed, order_repo@, None)
                    &&& spec_newest_first(listed)
                },
    {
        let listed = order_repo.list_orders(None);
        proof {
            lemma_listing_queues_live_orders(listed@, order_repo@);
        }
        let mut order_queue: VecDeque<OrderId> = VecDeque::new();
        let mut i: usize = 0;
        while i < listed.len()
            invariant
                i <= listed@.len(),
                order_queue@ == spec_ids(listed@.subrange(0, i as int)),
            decreases listed.len() - i,
        {
            order_queue.push_back(listed[i].id);
            i += 1;
            assert(order_queue@ =~= spec_ids(listed@.subrange(0, i as int)));
        }
        assert(listed@.subrange(0, listed@.len() as int) =~= listed@);
        ProcessingPool {
            shared_state: SharedState { order_repo, user_repo, order_queue, is_running: false },
            num_workers: num_threads,
            should_stop: false,
        }
    }

    /// The number of identifiers that await a step.
    pub fn queue_len(&self) -> (n: usize)
        ensures
            n == self.shared_state.order_queue@.len(),
    {
        self.shared_state.order_queue.len()
    }

    /// Queues `order_id` at the tail and sets the pool running. The caller
    /// then signals one waiting worker.
    pub fn submit_order(&mut self, order_id: OrderId)
        ensures
            final(self).shared_state@ == (EngineState {
                queue: old(self).shared_state@.queue.push(order_id),
                is_running: true,
                ..old(self).shared_state@
            }),
            final(self).should_stop == old(self).should_stop,
            final(self).num_workers == old(self).num_workers,
    {
        self.shared_state.order_queue.push_back(order_id);
        self.shared_state.is_running = true;
    }

    /// Sets the pool running.
    pub fn start(&mut self)
        ensures
            final(self).shared_state@ == (EngineState {
                is_running: true,
                ..old(self).shared_state@
            }),
            final(self).should_stop == old(self).should_stop,
            final(self).num_workers == old(self).num_workers,
    {
        self.shared_state.is_running = true;
    }

    /// Clears the run flag and tells the workers to stop. The caller then
    /// wakes every waiting worker.
    pub fn stop(&mut self)
        ensures
            final(self).shared_state@ == (EngineState {
                is_running: false,
                ..old(self).shared_state@
            }),
            final(self).should_stop,
            final(self).num_workers == old(self).num_workers,
    {
        self.shared_state.is_running = false;
        self.should_stop = true;
    }

    /// One step for the order under `order_id`, with a fresh draw at the
    /// current time.
    pub fn process_order(&mut self, order_id: OrderId) -> (outcome: StepOutcome)
        requires
            old(self).wf(),
        ensures
            final(self).wf(),
            final(self).should_stop == old(self).should_stop,
            final(self).num_workers == old(self).num_workers,
            exists|draw: u32, now: Timestamp| #[trigger]
                spec_step(
                    old(self).shared_state@,
                    final(self).shared_state@,
                    order_id,
                    draw,
                    now,
                    outcome,
                ),
    {
        let draw = random_draw();
        let now = now_micros();
        let outcome = self.shared_state.process_order_with(order_id, draw, now);
        assert(spec_step(
            old(self).shared_state@,
            self.shared_state@,
            order_id,
            draw,
            now,
            outcome,
        ));
        outcome
    }

    /// One turn of a worker, with the given draw and time.
    pub fn worker_task_with(&mut self, draw: u32, now: Timestamp) -> (action: WorkerAction)
        requires
            old(self).wf(),
        ensures
            final(self).wf(),
            final(self).should_stop == old(self).should_stop,
            final(self).num_workers == old(self).num_workers,
            spec_worker_turn(
                old(self).shared_state@,
                old(self).should_stop,
                final(self).shared_state@,
                draw,
                now,
                action,
            ),
    {
        if self.should_stop {
            return WorkerAction::Exit;
        }
        match self.shared_state.order_queue.pop_front() {
            Some(order_id) => {
                let ghost popped = self.shared_state@;
                let outcome = self.shared_state.process_order_with(order_id, draw, now);
                assert(spec_step(popped, self.shared_state@, order_id, draw, now, outcome));
                WorkerAction::Processed { order_id, outcome, back_off_ms: BACK_OFF_MS }
            },
            None => {
                if self.shared_state.is_running {
                    WorkerAction::WaitForWork { timeout_ms: WAIT_FOR_WORK_MS }
                } else {
                    WorkerAction::Idle { sleep_ms: IDLE_MS }
                }
            },
        }
    }

    /// One turn of a worker, with a fresh draw at the current time.
    pub fn worker_task(&mut self) -> (action: WorkerAction)
        requires
            old(self).wf(),
        ensures
            final(self).wf(),
            final(self).should_stop == old(self).should_stop,
            final(self).num_workers == old(self).num_workers,
            exists|draw: u32, now: Timestamp| #[trigger]
                spec_worker_turn(
                    old(self).shared_state@,
                    old(self).should_stop,
                    final(self).shared_state@,
                    draw,
                    now,
                    action,
                ),
    {
        let draw = random_draw();
        let now = now_micros();
        let action = self.worker_task_with(draw, now);
        assert(spec_worker_turn(
            old(self).shared_state@,
            old(self).should_stop,
            self.shared_state@,
            draw,
            now,
            action,
        ));
        action
    }
}

} // verus!
