//! What holds over whole runs of the engine: any sequence of worker turns,
//! single steps, cancellation requests and accepted orders, in any order
//! and with any draws.

use crate::broker::{spec_accepted, spec_cancel_requested};
use crate::order::{Order, OrderId, OrderStatus, Timestamp};
use crate::order_processing::{
    spec_can_fill, spec_execution_price, spec_fill_booked, spec_step, spec_worker_turn,
    EngineState, StepOutcome, WorkerAction, BACK_OFF_MS,
};
use crate::user::{spec_users_wf, User, UserId};
use vstd::prelude::*;

verus! {

/// Whether `after` is what one event makes of `before`. An event is a turn
/// of a worker, a step for some order, a request to cancel some order, or
/// the acceptance of an order under an identifier that is not in use.
pub open spec fn spec_event(before: EngineState, after: EngineState) -> bool {
    ||| exists|should_stop: bool, draw: u32, now: Timestamp, action: WorkerAction| #[trigger]
        spec_worker_turn(before, should_stop, after, draw, now, action)
    ||| exists|id: OrderId, draw: u32, now: Timestamp, outcome: StepOutcome| #[trigger]
        spec_step(before, after, id, draw, now, outcome)
    ||| exists|id: OrderId| after == #[trigger] spec_cancel_requested(before, id)
    ||| exists|id: OrderId, order: Order|
        !before.orders.contains_key(id) && after == #[trigger] spec_accepted(before, id, order)
}

/// A run: each state but the first comes from the one before it by one
/// event.
pub open spec fn spec_run(states: Seq<EngineState>) -> bool {
    forall|k: int| 0 < k < states.len() ==> spec_event(states[k - 1], #[trigger] states[k])
}

/// Whether every order of `owner` but the one under `id` is in a terminal
/// status.
pub open spec fn spec_no_other_live_order(state: EngineState, id: OrderId, owner: UserId) -> bool {
    forall|other: OrderId|
        other != id && #[trigger] state.orders.contains_key(other) && state.orders[other].client_id
            == owner ==> state.orders[other].status.spec_is_terminal()
}

/// Whether `state` has the order stored under `id` in `first` as it was but
/// for its status, and its owner's ledger booked with that order once or
/// never: an order that is `Filled` stands on the ledger that the owner had
/// in `first`, settled once at the execution price; while the order is
/// `Queued`, `Pending`, `PendingCancel` or `Cancelled` the owner is as in
/// `first`. The order is not `Rejected` or `Expired`.
pub open spec fn spec_booked_once_or_never(
    first: EngineState,
    state: EngineState,
    id: OrderId,
) -> bool {
    let order = first.orders[id];
    let owner = order.client_id;
    &&& spec_users_wf(state.users)
    &&& state.orders.contains_key(id)
    &&& state.users.contains_key(owner)
    &&& state.orders[id] == (Order { status: state.orders[id].status, ..order })
    &&& match state.orders[id].status {
        OrderStatus::Filled { date } => state.users[owner]@ == User::spec_settled(
            first.users[owner]@,
            order.order_side,
            order.symbol@,
            order.quantity,
            spec_execution_price(order.symbol@),
            date,
        ),
        OrderStatus::Rejected { .. } => false,
        OrderStatus::Expired { .. } => false,
        _ => state.users[owner] == first.users[owner],
    }
}

/// A step leaves an order in a terminal status as it is.
proof fn lemma_step_keeps_terminal(
    before: EngineState,
    after: EngineState,
    order_id: OrderId,
    draw: u32,
    now: Timestamp,
    outcome: StepOutcome,
    id: OrderId,
)
    requires
        spec_step(before, after, order_id, draw, now, outcome),
        before.orders.contains_key(id),
        before.orders[id].status.spec_is_terminal(),
    ensures
        after.orders.contains_key(id),
        after.orders[id] == before.orders[id],
{
}

/// An event leaves an order in a terminal status as it is.
proof fn lemma_event_keeps_terminal(before: EngineState, after: EngineState, id: OrderId)
    requires
        spec_event(before, after),
        before.orders.contains_key(id),
        before.orders[id].status.spec_is_terminal(),
    ensures
        after.orders.contains_key(id),
        after.orders[id] == before.orders[id],
{
    if exists|should_stop: bool, draw: u32, now: Timestamp, action: WorkerAction| #[trigger]
        spec_worker_turn(before, should_stop, after, draw, now, action) {
        let (should_stop, draw, now, action) = choose|
            should_stop: bool,
            draw: u32,
            now: Timestamp,
            action: WorkerAction,
        | #[trigger] spec_worker_turn(before, should_stop, after, draw, now, action);
        if !should_stop && before.queue.len() > 0 {
            let head = before.queue[0];
            let popped = EngineState {
                queue: before.queue.subrange(1, before.queue.len() as int),
                ..before
            };
            let outcome = choose|outcome: StepOutcome| #[trigger]
                spec_step(popped, after, head, draw, now, outcome) && action == (
                WorkerAction::Processed { order_id: head, outcome, back_off_ms: BACK_OFF_MS });
            lemma_step_keeps_terminal(popped, after, head, draw, now, outcome, id);
        }
    } else if exists|order_id: OrderId, draw: u32, now: Timestamp, outcome: StepOutcome| #[trigger]
        spec_step(before, after, order_id, draw, now, outcome) {
        let (order_id, draw, now, outcome) = choose|
            order_id: OrderId,
            draw: u32,
            now: Timestamp,
            outcome: StepOutcome,
        | #[trigger] spec_step(before, after, order_id, draw, now, outcome);
        lemma_step_keeps_terminal(before, after, order_id, draw, now, outcome, id);
    }
}

/// A step keeps the booking of the order under `id`.
proof fn lemma_step_keeps_booking(
    first: EngineState,
    before: EngineState,
    after: EngineState,
    id: OrderId,
    order_id: OrderId,
    draw: u32,
    now: Timestamp,
    outcome: StepOutcome,
)
    requires
        first.orders.contains_key(id),
        spec_can_fill(
            first.users,
            first.orders[id],
            spec_execution_price(first.orders[id].symbol@),
        ),
        spec_booked_once_or_never(first, before, id),
        spec_no_other_live_order(before, id, first.orders[id].client_id),
        spec_step(before, after, order_id, draw, now, outcome),
    ensures
        spec_booked_once_or_never(first, after, id),
{
    let owner = first.orders[id].client_id;
    if before.orders.contains_key(order_id) {
        let order = before.orders[order_id];
        let price = spec_execution_price(order.symbol@);
        if outcome == StepOutcome::Filled {
            assert(spec_fill_booked(before.users, after.users, order, price, now));
            if order_id == id {
                assert(after.orders[id].status == (OrderStatus::Filled { date: now }));
            } else {
                assert(before.orders.contains_key(order_id));
                assert(order.client_id != owner);
                assert(before.users.contains_key(owner));
                assert(after.users[owner] == before.users[owner]);
                assert(after.orders[id] == before.orders[id]);
            }
        } else {
            assert(after.users == before.users);
            if order_id == id {
                if order.status is Pending {
                    assert(before.users[owner] == first.users[owner]);
                    assert(spec_can_fill(before.users, order, price));
                }
            } else {
                assert(after.orders[id] == before.orders[id]);
            }
        }
    }
}

/// An event keeps the booking of the order under `id`.
proof fn lemma_event_keeps_booking(
    first: EngineState,
    before: EngineState,
    after: EngineState,
    id: OrderId,
)
    requires
        first.orders.contains_key(id),
        spec_can_fill(
            first.users,
            first.orders[id],
            spec_execution_price(first.orders[id].symbol@),
        ),
        spec_booked_once_or_never(first, before, id),
        spec_no_other_live_order(before, id, first.orders[id].client_id),
        spec_event(before, after),
    ensures
        spec_booked_once_or_never(first, after, id),
{
    if exists|should_stop: bool, draw: u32, now: Timestamp, action: WorkerAction| #[trigger]
        spec_worker_turn(before, should_stop, after, draw, now, action) {
        let (should_stop, draw, now, action) = choose|
            should_stop: bool,
            draw: u32,
            now: Timestamp,
            action: WorkerAction,
        | #[trigger] spec_worker_turn(before, should_stop, after, draw, now, action);
        if !should_stop && before.queue.len() > 0 {
            let head = before.queue[0];
            let popped = EngineState {
                queue: before.queue.subrange(1, before.queue.len() as int),
                ..before
            };
            let outcome = choose|outcome: StepOutcome| #[trigger]
                spec_step(popped, after, head, draw, now, outcome) && action == (
                WorkerAction::Processed { order_id: head, outcome, back_off_ms: BACK_OFF_MS });
            assert(spec_booked_once_or_never(first, popped, id));
            assert(spec_no_other_live_order(popped, id, first.orders[id].client_id));
            lemma_step_keeps_booking(first, popped, after, id, head, draw, now, outcome);
        }
    } else if exists|order_id: OrderId, draw: u32, now: Timestamp, outcome: StepOutcome| #[trigger]
        spec_step(before, after, order_id, draw, now, outcome) {
        let (order_id, draw, now, outcome) = choose|
            order_id: OrderId,
            draw: u32,
            now: Timestamp,
            outcome: StepOutcome,
        | #[trigger] spec_step(before, after, order_id, draw, now, outcome);
        lemma_step_keeps_booking(first, before, after, id, order_id, draw, now, outcome);
    }
}

/// Terminal statuses are final over a run: an order that is in a terminal
/// status at one point of a run is the same at every later point, whatever
/// turns, steps, cancellation requests and new orders come between.
pub proof fn law_a_terminal_order_stays_as_it_is(
    states: Seq<EngineState>,
    id: OrderId,
    i: int,
    j: int,
)
    requires
        spec_run(states),
        0 <= i <= j < states.len(),
        states[i].orders.contains_key(id),
        states[i].orders[id].status.spec_is_terminal(),
    ensures
        states[j].orders.contains_key(id),
        states[j].orders[id] == states[i].orders[id],
    decreases j - i,
{
    if i < j {
        law_a_terminal_order_stays_as_it_is(states, id, i, j - 1);
        assert(spec_event(states[j - 1], states[j]));
        lemma_event_keeps_terminal(states[j - 1], states[j], id);
    }
}

/// An order is booked once or never. Take a run that starts with the order
/// under `id` stored in a status that is not terminal, with an owner whose
/// ledger can take its fill, and in which the owner has no other order
/// that is not in a terminal status. Then at every point of the run the
/// order is as it was but for its status, which is `Queued`, `Pending`,
/// `PendingCancel`, `Filled` or `Cancelled`; if it is `Filled`, the owner
/// is as at the start but for the one fill at the execution price; if it
/// is anything else, `Cancelled` too, the owner is as at the start, with
/// nothing taken from the balance and no share moved.
pub proof fn law_an_order_is_booked_once_or_never(
    states: Seq<EngineState>,
    id: OrderId,
    k: int,
)
    requires
        spec_run(states),
        0 <= k < states.len(),
        spec_users_wf(states[0].users),
        states[0].orders.contains_key(id),
        !states[0].orders[id].status.spec_is_terminal(),
        spec_can_fill(
            states[0].users,
            states[0].orders[id],
            spec_execution_price(states[0].orders[id].symbol@),
        ),
        forall|n: int|
            0 <= n < states.len() ==> spec_no_other_live_order(
                #[trigger] states[n],
                id,
                states[0].orders[id].client_id,
            ),
    ensures
        spec_booked_once_or_never(states[0], states[k], id),
    decreases k,
{
    if k > 0 {
        law_an_order_is_booked_once_or_never(states, id, k - 1);
        assert(spec_event(states[k - 1], states[k]));
        assert(spec_no_other_live_order(states[k - 1], id, states[0].orders[id].client_id));
        lemma_event_keeps_booking(states[0], states[k - 1], states[k], id);
    }
}

} // verus!
