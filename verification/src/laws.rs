//! What holds of every step of the engine, stated over the relation
//! [`spec_step`] that each step establishes.

use crate::broker::spec_accepted;
use crate::money::{spec_notional, Price};
use crate::order::{Order, OrderId, OrderSide, OrderStatus, Timestamp};
use crate::order_processing::{
    spec_can_fill, spec_execution_price, spec_fill_booked, spec_fill_drawn, spec_step,
    spec_worker_turn, EngineState, StepOutcome, WorkerAction, BACK_OFF_MS,
};
use crate::portfolio::{
    lemma_average_cost_bounds, lemma_positions_positive, spec_held, spec_updated_holding,
    HoldingView,
};
use crate::user::{spec_users_wf, UserId};
use vstd::prelude::*;

verus! {

/// No step leaves a user with an empty position: after a step from a state
/// in which every user is well-formed, every open position of every user is
/// of at least one share. A balance cannot be negative by its type.
pub proof fn law_positions_stay_positive(
    before: EngineState,
    after: EngineState,
    order_id: OrderId,
    draw: u32,
    now: Timestamp,
    outcome: StepOutcome,
    user: UserId,
    symbol: Seq<char>,
)
    requires
        spec_users_wf(before.users),
        spec_step(before, after, order_id, draw, now, outcome),
        after.users.contains_key(user),
        after.users[user]@.holdings.contains_key(symbol),
    ensures
        after.users[user]@.holdings[symbol].quantity >= 1,
        after.users[user].balance.units >= 0,
{
    lemma_positions_positive(after.users[user].holdings, symbol);
}

/// A terminal status is a sink: an order in a terminal status is the same
/// after any step, whichever order the step was for.
pub proof fn law_terminal_orders_never_change(
    before: EngineState,
    after: EngineState,
    order_id: OrderId,
    draw: u32,
    now: Timestamp,
    outcome: StepOutcome,
    other: OrderId,
)
    requires
        spec_step(before, after, order_id, draw, now, outcome),
        before.orders.contains_key(other),
        before.orders[other].status.spec_is_terminal(),
    ensures
        after.orders.contains_key(other),
        after.orders[other] == before.orders[other],
{
}

/// A step changes no order but the one it is for, and of that one only
/// the status: quantity, price, side, symbol, owner and date stay.
pub proof fn law_step_changes_only_status(
    before: EngineState,
    after: EngineState,
    order_id: OrderId,
    draw: u32,
    now: Timestamp,
    outcome: StepOutcome,
    other: OrderId,
)
    requires
        spec_step(before, after, order_id, draw, now, outcome),
        before.orders.contains_key(other),
    ensures
        after.orders.contains_key(other),
        other != order_id ==> after.orders[other] == before.orders[other],
        after.orders[other]@.with_status(before.orders[other].status) == before.orders[other]@,
{
}

/// Only a fill touches the ledger, and only the owner's: a step that
/// does not fill leaves every user as it was, and a fill leaves every user
/// but the owner of the order as it was and changes of the owner only the
/// balance and the holdings.
pub proof fn law_only_fills_touch_the_ledger(
    before: EngineState,
    after: EngineState,
    order_id: OrderId,
    draw: u32,
    now: Timestamp,
    outcome: StepOutcome,
    user: UserId,
)
    requires
        spec_step(before, after, order_id, draw, now, outcome),
        before.users.contains_key(user),
    ensures
        after.users.contains_key(user),
        outcome != StepOutcome::Filled ==> after.users == before.users,
        outcome == StepOutcome::Filled && user != before.orders[order_id].client_id
            ==> after.users[user] == before.users[user],
        after.users[user]@.id == before.users[user]@.id,
        after.users[user]@.email == before.users[user]@.email,
        after.users[user]@.password_hash == before.users[user]@.password_hash,
        after.users[user]@.is_verified == before.users[user]@.is_verified,
        after.users[user]@.created_at == before.users[user]@.created_at,
{
}

/// A buy that a step fills at price `p` and quantity `q` takes `p * q` from
/// the owner's balance and adds `q` shares to the position in the symbol.
pub proof fn law_buy_fill_books_cash_and_shares(
    before: EngineState,
    after: EngineState,
    order_id: OrderId,
    draw: u32,
    now: Timestamp,
)
    requires
        spec_users_wf(before.users),
        spec_step(before, after, order_id, draw, now, StepOutcome::Filled),
        before.orders[order_id].order_side == OrderSide::Buy,
    ensures
        before.orders.contains_key(order_id),
        before.orders[order_id].status == OrderStatus::Pending,
        after.orders[order_id].status == (OrderStatus::Filled { date: now }),
        ({
            let order = before.orders[order_id];
            let owner = order.client_id;
            let cost = spec_notional(spec_execution_price(order.symbol@), order.quantity);
            &&& before.users.contains_key(owner) && after.users.contains_key(owner)
            &&& after.users[owner].balance.units == before.users[owner].balance.units - cost
            &&& spec_held(after.users[owner]@.holdings, order.symbol@) == spec_held(
                before.users[owner]@.holdings,
                order.symbol@,
            ) + order.quantity
        }),
{
    let order = before.orders[order_id];
    let owner = order.client_id;
    let price = spec_execution_price(order.symbol@);
    assert(spec_fill_booked(before.users, after.users, order, price, now));
    let held = before.users[owner]@.holdings;
    if held.contains_key(order.symbol@) {
        lemma_positions_positive(before.users[owner].holdings, order.symbol@);
    }
}

/// A sale that a step fills at price `p` and quantity `q` adds `p * q` to
/// the owner's balance and takes `q` shares from the position in the
/// symbol, where that many are held; a position that reaches zero is gone.
pub proof fn law_sell_fill_books_cash_and_shares(
    before: EngineState,
    after: EngineState,
    order_id: OrderId,
    draw: u32,
    now: Timestamp,
)
    requires
        spec_users_wf(before.users),
        spec_step(before, after, order_id, draw, now, StepOutcome::Filled),
        before.orders[order_id].order_side == OrderSide::Sell,
        spec_held(
            before.users[before.orders[order_id].client_id]@.holdings,
            before.orders[order_id].symbol@,
        ) >= before.orders[order_id].quantity,
    ensures
        before.orders.contains_key(order_id),
        before.orders[order_id].status == OrderStatus::Pending,
        after.orders[order_id].status == (OrderStatus::Filled { date: now }),
        ({
            let order = before.orders[order_id];
            let owner = order.client_id;
            let proceeds = spec_notional(spec_execution_price(order.symbol@), order.quantity);
            let left = spec_held(after.users[owner]@.holdings, order.symbol@);
            &&& before.users.contains_key(owner) && after.users.contains_key(owner)
            &&& after.users[owner].balance.units == before.users[owner].balance.units + proceeds
            &&& left == spec_held(before.users[owner]@.holdings, order.symbol@) - order.quantity
            &&& left == 0 ==> !after.users[owner]@.holdings.contains_key(order.symbol@)
        }),
{
    let order = before.orders[order_id];
    let owner = order.client_id;
    let price = spec_execution_price(order.symbol@);
    assert(spec_fill_booked(before.users, after.users, order, price, now));
    let held = before.users[owner]@.holdings;
    if held.contains_key(order.symbol@) {
        lemma_positions_positive(before.users[owner].holdings, order.symbol@);
    }
    if after.users[owner]@.holdings.contains_key(order.symbol@) {
        lemma_positions_positive(after.users[owner].holdings, order.symbol@);
    }
}

/// A pending buy whose draw matches is filled where the owner has the cash
/// and the position stays countable: the order is `Filled` and not queued
/// again, the notional at the execution price leaves the owner's balance,
/// the position in the symbol grows by the quantity, and the owner's other
/// positions and every other user are as before.
pub proof fn law_a_matched_buy_with_cash_is_filled(
    before: EngineState,
    after: EngineState,
    order_id: OrderId,
    draw: u32,
    now: Timestamp,
    outcome: StepOutcome,
)
    requires
        spec_users_wf(before.users),
        spec_step(before, after, order_id, draw, now, outcome),
        before.orders.contains_key(order_id),
        before.orders[order_id].status == OrderStatus::Pending,
        before.orders[order_id].order_side == OrderSide::Buy,
        spec_fill_drawn(draw),
        before.users.contains_key(before.orders[order_id].client_id),
        before.users[before.orders[order_id].client_id].balance.units >= spec_notional(
            spec_execution_price(before.orders[order_id].symbol@),
            before.orders[order_id].quantity,
        ),
        spec_held(
            before.users[before.orders[order_id].client_id]@.holdings,
            before.orders[order_id].symbol@,
        ) + before.orders[order_id].quantity <= u64::MAX,
    ensures
        outcome == StepOutcome::Filled,
        after.orders[order_id].status == (OrderStatus::Filled { date: now }),
        after.queue == before.queue,
        ({
            let order = before.orders[order_id];
            let owner = order.client_id;
            let cost = spec_notional(spec_execution_price(order.symbol@), order.quantity);
            let held = before.users[owner]@.holdings;
            let now_held = after.users[owner]@.holdings;
            &&& after.users.contains_key(owner)
            &&& after.users[owner].balance.units == before.users[owner].balance.units - cost
            &&& spec_held(now_held, order.symbol@) == spec_held(held, order.symbol@)
                + order.quantity
            &&& now_held.remove(order.symbol@) == held.remove(order.symbol@)
            &&& after.users.remove(owner) == before.users.remove(owner)
        }),
{
    let order = before.orders[order_id];
    let owner = order.client_id;
    let price = spec_execution_price(order.symbol@);
    let held = before.users[owner]@.holdings;
    if held.contains_key(order.symbol@) {
        lemma_positions_positive(before.users[owner].holdings, order.symbol@);
    }
    assert(spec_can_fill(before.users, order, price));
    assert(spec_fill_booked(before.users, after.users, order, price, now));
    let now_held = after.users[owner]@.holdings;
    assert(now_held.remove(order.symbol@) =~= held.remove(order.symbol@));
    assert(after.users.remove(owner) =~= before.users.remove(owner));
}

/// A pending sale whose draw matches is filled where the owner holds the
/// shares and the balance can take the proceeds: the order is `Filled` and
/// not queued again, the notional at the execution price is added to the
/// owner's balance, and the position in the symbol shrinks by the quantity
/// at an unchanged average cost, or is gone if it was sold in full. The
/// owner's other positions and every other user are as before.
pub proof fn law_a_matched_sale_of_held_shares_is_filled(
    before: EngineState,
    after: EngineState,
    order_id: OrderId,
    draw: u32,
    now: Timestamp,
    outcome: StepOutcome,
)
    requires
        spec_users_wf(before.users),
        spec_step(before, after, order_id, draw, now, outcome),
        before.orders.contains_key(order_id),
        before.orders[order_id].status == OrderStatus::Pending,
        before.orders[order_id].order_side == OrderSide::Sell,
        spec_fill_drawn(draw),
        before.users.contains_key(before.orders[order_id].client_id),
        before.users[before.orders[order_id].client_id].balance.units + spec_notional(
            spec_execution_price(before.orders[order_id].symbol@),
            before.orders[order_id].quantity,
        ) <= u128::MAX,
        spec_held(
            before.users[before.orders[order_id].client_id]@.holdings,
            before.orders[order_id].symbol@,
        ) >= before.orders[order_id].quantity,
    ensures
        outcome == StepOutcome::Filled,
        after.orders[order_id].status == (OrderStatus::Filled { date: now }),
        after.queue == before.queue,
        !before.queue.contains(order_id) ==> !after.queue.contains(order_id),
        ({
            let order = before.orders[order_id];
            let owner = order.client_id;
            let proceeds = spec_notional(spec_execution_price(order.symbol@), order.quantity);
            let held = before.users[owner]@.holdings;
            let now_held = after.users[owner]@.holdings;
            let had = spec_held(held, order.symbol@);
            &&& after.users.contains_key(owner)
            &&& after.users[owner].balance.units == before.users[owner].balance.units + proceeds
            &&& had > order.quantity ==> now_held.contains_key(order.symbol@)
                && now_held[order.symbol@].quantity == had - order.quantity
                && now_held[order.symbol@].average_cost == held[order.symbol@].average_cost
            &&& had == order.quantity ==> !now_held.contains_key(order.symbol@)
            &&& now_held.remove(order.symbol@) == held.remove(order.symbol@)
            &&& after.users.remove(owner) == before.users.remove(owner)
        }),
{
    let order = before.orders[order_id];
    let owner = order.client_id;
    let price = spec_execution_price(order.symbol@);
    let held = before.users[owner]@.holdings;
    if held.contains_key(order.symbol@) {
        lemma_positions_positive(before.users[owner].holdings, order.symbol@);
    }
    assert(spec_can_fill(before.users, order, price));
    assert(spec_fill_booked(before.users, after.users, order, price, now));
    let now_held = after.users[owner]@.holdings;
    assert(now_held.remove(order.symbol@) =~= held.remove(order.symbol@));
    assert(after.users.remove(owner) =~= before.users.remove(owner));
}

/// Accepting an order under an identifier that is not in use stores it in
/// status `Queued` with all that was asked for, puts the identifier last in
/// the queue, and changes no other order and no user.
pub proof fn law_an_accepted_order_is_stored_and_queued(
    state: EngineState,
    id: OrderId,
    order: Order,
)
    requires
        !state.orders.contains_key(id),
    ensures
        ({
            let after = spec_accepted(state, id, order);
            &&& after.orders.contains_key(id)
            &&& after.orders[id] == (Order { status: OrderStatus::Queued, ..order })
            &&& after.orders.remove(id) == state.orders
            &&& after.queue.len() == state.queue.len() + 1
            &&& after.queue.last() == id
            &&& after.queue.drop_last() == state.queue
            &&& after.users == state.users
        }),
{
    let after = spec_accepted(state, id, order);
    assert(after.orders.remove(id) =~= state.orders);
    assert(after.queue.drop_last() =~= state.queue);
}

/// A sale of more shares than are held closes the position: the ledger
/// does not go short.
pub proof fn law_sell_fill_never_goes_short(
    before: EngineState,
    after: EngineState,
    order_id: OrderId,
    draw: u32,
    now: Timestamp,
)
    requires
        spec_users_wf(before.users),
        spec_step(before, after, order_id, draw, now, StepOutcome::Filled),
        before.orders[order_id].order_side == OrderSide::Sell,
        spec_held(
            before.users[before.orders[order_id].client_id]@.holdings,
            before.orders[order_id].symbol@,
        ) <= before.orders[order_id].quantity,
    ensures
        !after.users[before.orders[order_id].client_id]@.holdings.contains_key(
            before.orders[order_id].symbol@,
        ),
{
    let order = before.orders[order_id];
    let owner = order.client_id;
    let price = spec_execution_price(order.symbol@);
    assert(spec_fill_booked(before.users, after.users, order, price, now));
}

/// The average-cost law. A buy of `quantity >= 1` shares at `price` into a
/// position of `held.quantity >= 1` shares leaves an average cost `c` with
/// `c * n <= old_cost * old_quantity + price * quantity < c * n + n`, where
/// `n` is the new quantity: the weighted average, rounded down by less than
/// one fixed-point unit per share. A first buy opens the position at
/// `price` exactly.
pub proof fn law_average_cost(
    held: Option<HoldingView>,
    symbol: Seq<char>,
    quantity: u64,
    price: Price,
    now: Timestamp,
)
    requires
        quantity >= 1,
        held matches Some(h) ==> h.quantity >= 1 && h.quantity + quantity <= u64::MAX,
    ensures
        spec_updated_holding(held, symbol, quantity as int, price, now) is Some,
        ({
            let new = spec_updated_holding(held, symbol, quantity as int, price, now)->0;
            let basis = match held {
                Some(h) => h.average_cost.units * h.quantity,
                None => 0,
            } + price.units * quantity;
            &&& new.quantity == (match held {
                Some(h) => h.quantity as int,
                None => 0,
            }) + quantity
            &&& new.average_cost.units * new.quantity <= basis
            &&& basis < new.average_cost.units * new.quantity + new.quantity
            &&& held is None ==> new.average_cost.units * new.quantity == basis
        }),
{
    match held {
        Some(h) => {
            lemma_average_cost_bounds(
                h.average_cost.units as int,
                h.quantity as int,
                price.units as int,
                quantity as int,
            );
        },
        None => {
            let p = price.units as int;
            let q = quantity as int;
            assert(p * q < p * q + q);
        },
    }
}

/// The average-cost law across a fill. After a buy of `q >= 1` shares that
/// a step fills at price `p`, the owner's position in the symbol has an
/// average cost `c` and a quantity `n` with
/// `c * n <= old_cost * old_quantity + p * q < c * n + n`, where a position
/// that was not open counts as zero shares at no cost.
pub proof fn law_buy_fill_keeps_the_average_cost(
    before: EngineState,
    after: EngineState,
    order_id: OrderId,
    draw: u32,
    now: Timestamp,
)
    requires
        spec_users_wf(before.users),
        spec_step(before, after, order_id, draw, now, StepOutcome::Filled),
        before.orders[order_id].order_side == OrderSide::Buy,
        before.orders[order_id].quantity >= 1,
    ensures
        ({
            let order = before.orders[order_id];
            let owner = order.client_id;
            let price = spec_execution_price(order.symbol@);
            let held = before.users[owner]@.holdings;
            let basis = (if held.contains_key(order.symbol@) {
                held[order.symbol@].average_cost.units * held[order.symbol@].quantity
            } else {
                0
            }) + price.units * order.quantity;
            let now_held = after.users[owner]@.holdings;
            &&& now_held.contains_key(order.symbol@)
            &&& now_held[order.symbol@].average_cost.units * now_held[order.symbol@].quantity
                <= basis
            &&& basis < now_held[order.symbol@].average_cost.units
                * now_held[order.symbol@].quantity + now_held[order.symbol@].quantity
        }),
{
    let order = before.orders[order_id];
    let owner = order.client_id;
    let price = spec_execution_price(order.symbol@);
    assert(spec_fill_booked(before.users, after.users, order, price, now));
    let held = before.users[owner]@.holdings;
    let position = if held.contains_key(order.symbol@) {
        Some(held[order.symbol@])
    } else {
        None
    };
    if held.contains_key(order.symbol@) {
        lemma_positions_positive(before.users[owner].holdings, order.symbol@);
    }
    law_average_cost(position, order.symbol@, order.quantity, price, now);
}

/// Queue safety. A step that leaves its order in a terminal status does
/// not queue it: if the identifier was not waiting elsewhere in the queue
/// before the step, it is not in the queue after it.
pub proof fn law_terminal_orders_leave_the_queue(
    before: EngineState,
    after: EngineState,
    order_id: OrderId,
    draw: u32,
    now: Timestamp,
    outcome: StepOutcome,
)
    requires
        spec_step(before, after, order_id, draw, now, outcome),
        after.orders.contains_key(order_id),
        after.orders[order_id].status.spec_is_terminal(),
        !before.queue.contains(order_id),
    ensures
        after.queue == before.queue,
        !after.queue.contains(order_id),
{
}

/// Every step ends in one of two ways for the queue: the order is queued
/// again, and then it is not in a terminal status, or the queue is as it
/// was.
pub proof fn law_only_live_orders_are_requeued(
    before: EngineState,
    after: EngineState,
    order_id: OrderId,
    draw: u32,
    now: Timestamp,
    outcome: StepOutcome,
)
    requires
        spec_step(before, after, order_id, draw, now, outcome),
    ensures
        after.queue == before.queue || (after.queue == before.queue.push(order_id)
            && after.orders.contains_key(order_id)
            && !after.orders[order_id].status.spec_is_terminal()),
{
}

/// Queue safety for a worker's turn. Where the identifier at the head of
/// the queue waits nowhere else in it, a turn that leaves its order in a
/// terminal status leaves the queue without the identifier.
pub proof fn law_a_turn_takes_terminal_orders_off_the_queue(
    before: EngineState,
    after: EngineState,
    draw: u32,
    now: Timestamp,
    action: WorkerAction,
)
    requires
        spec_worker_turn(before, false, after, draw, now, action),
        before.queue.len() > 0,
        forall|i: int|
            1 <= i < before.queue.len() ==> #[trigger] before.queue[i] != before.queue[0],
        after.orders.contains_key(before.queue[0]),
        after.orders[before.queue[0]].status.spec_is_terminal(),
    ensures
        action matches WorkerAction::Processed { order_id, .. } && order_id == before.queue[0],
        after.queue == before.queue.subrange(1, before.queue.len() as int),
        !after.queue.contains(before.queue[0]),
{
    let head = before.queue[0];
    let popped = EngineState {
        queue: before.queue.subrange(1, before.queue.len() as int),
        ..before
    };
    let outcome = choose|outcome: StepOutcome|
        #[trigger] spec_step(popped, after, head, draw, now, outcome) && action == (
        WorkerAction::Processed { order_id: head, outcome, back_off_ms: BACK_OFF_MS });
    assert(!popped.queue.contains(head)) by {
        if popped.queue.contains(head) {
            let i = choose|i: int| 0 <= i < popped.queue.len() && popped.queue[i] == head;
            assert(before.queue[i + 1] == head);
        }
    }
    law_terminal_orders_leave_the_queue(popped, after, head, draw, now, outcome);
}

/// A turn of a worker changes no order in a terminal status, and a
/// stopped pool changes nothing at all.
pub proof fn law_a_turn_leaves_terminal_orders(
    before: EngineState,
    should_stop: bool,
    after: EngineState,
    draw: u32,
    now: Timestamp,
    action: WorkerAction,
    other: OrderId,
)
    requires
        spec_worker_turn(before, should_stop, after, draw, now, action),
        before.orders.contains_key(other),
        before.orders[other].status.spec_is_terminal(),
    ensures
        after.orders.contains_key(other),
        after.orders[other] == before.orders[other],
        should_stop ==> after == before,
{
    if !should_stop && before.queue.len() > 0 {
        let head = before.queue[0];
        let popped = EngineState {
            queue: before.queue.subrange(1, before.queue.len() as int),
            ..before
        };
        let outcome = choose|outcome: StepOutcome|
            #[trigger] spec_step(popped, after, head, draw, now, outcome) && action == (
            WorkerAction::Processed { order_id: head, outcome, back_off_ms: BACK_OFF_MS });
        law_terminal_orders_never_change(popped, after, head, draw, now, outcome, other);
    }
}

/// A cancellation that was asked for is carried out by the next step for
/// the order, whatever the draw, and touches no ledger.
pub proof fn law_a_requested_cancellation_is_final(
    before: EngineState,
    after: EngineState,
    order_id: OrderId,
    draw: u32,
    now: Timestamp,
    outcome: StepOutcome,
)
    requires
        spec_step(before, after, order_id, draw, now, outcome),
        before.orders.contains_key(order_id),
        before.orders[order_id].status == OrderStatus::PendingCancel,
    ensures
        outcome == StepOutcome::Cancelled,
        after.orders[order_id].status == OrderStatus::Cancelled,
        after.users == before.users,
        after.queue == before.queue,
{
}

} // verus!
