//! The order record and its status variants.

use crate::db::{DbError, DbErrorView, Document};
use crate::in_memory::{spec_lists_matching, spec_lists_rows, InMemoryRepo};
use crate::money::Price;
use crate::pre_trade::same_text;
use crate::sys::{
    fresh_id, id_text, lemma_id_text_injective, spec_id_text, ID_FORMAT_MASK, ID_FORMAT_RANDOM,
};
use vstd::prelude::*;
use vstd::seq_lib::{to_multiset_build, to_multiset_contains, to_multiset_insert, to_multiset_len};
use vstd::string::StringExecFns;

verus! {

/// Identifies an order: an opaque 128-bit value.
pub type OrderId = u128;

/// Identifies a user: an opaque 128-bit value.
pub type ClientId = u128;

/// A point in time, in microseconds since the Unix epoch.
pub type Timestamp = i64;

/// Where an order stands in its life cycle.
#[derive(Clone, Copy, Debug, PartialEq, Eq, Structural)]
pub enum OrderStatus {
    /// Cancelled on the user's request.
    Cancelled,
    /// Cancelled by the system.
    Expired { date: Timestamp },
    /// Completely executed.
    Filled { date: Timestamp },
    /// Sent for execution, not executed yet.
    Pending,
    /// A cancellation was requested and awaits a worker.
    PendingCancel,
    /// Accepted, not yet seen by a worker.
    Queued,
    /// Refused by the system.
    Rejected { date: Timestamp },
}

/// Which way an order trades.
#[derive(Clone, Copy, Debug, PartialEq, Eq, Structural)]
pub enum OrderSide {
    Buy,
    Sell,
}

/// How an order is priced.
#[derive(Clone, Copy, Debug, PartialEq, Eq, Structural)]
pub enum OrderType {
    Market,
    Limit(Price),
}

/// A client's request to buy or sell a quantity of a symbol.
#[derive(Debug)]
pub struct Order {
    pub client_id: ClientId,
    pub date: Timestamp,
    pub symbol: String,
    pub quantity: u64,
    pub status: OrderStatus,
    pub order_type: OrderType,
    pub order_side: OrderSide,
}

/// The mathematical value of an [`Order`].
pub struct OrderView {
    pub client_id: ClientId,
    pub date: Timestamp,
    pub symbol: Seq<char>,
    pub quantity: u64,
    pub status: OrderStatus,
    pub order_type: OrderType,
    pub order_side: OrderSide,
}

impl View for Order {
    type V = OrderView;

    open spec fn view(&self) -> OrderView {
        OrderView {
            client_id: self.client_id,
            date: self.date,
            symbol: self.symbol@,
            quantity: self.quantity,
            status: self.status,
            order_type: self.order_type,
            order_side: self.order_side,
        }
    }
}

impl OrderView {
    /// This order with another status and every other field kept.
    pub open spec fn with_status(self, status: OrderStatus) -> OrderView {
        OrderView { status, ..self }
    }
}

impl OrderStatus {
    /// A terminal status has no transition out of it.
    pub open spec fn spec_is_terminal(&self) -> bool {
        self is Filled || self is Cancelled || self is Expired || self is Rejected
    }

    /// Whether this status is one of `Filled`, `Cancelled`, `Expired`,
    /// `Rejected`.
    #[verifier::when_used_as_spec(spec_is_terminal)]
    pub fn is_terminal(&self) -> (b: bool)
        ensures
            b == self.spec_is_terminal(),
    {
        match self {
            OrderStatus::Filled { .. } => true,
            OrderStatus::Cancelled => true,
            OrderStatus::Expired { .. } => true,
            OrderStatus::Rejected { .. } => true,
            _ => false,
        }
    }

    /// The name of the variant, without its payload.
    pub open spec fn spec_tag(self) -> Seq<char> {
        match self {
            OrderStatus::Cancelled => "Cancelled"@,
            OrderStatus::Expired { .. } => "Expired"@,
            OrderStatus::Filled { .. } => "Filled"@,
            OrderStatus::Pending => "Pending"@,
            OrderStatus::PendingCancel => "PendingCancel"@,
            OrderStatus::Queued => "Queued"@,
            OrderStatus::Rejected { .. } => "Rejected"@,
        }
    }

    /// The name of the variant: the text by which stored orders are looked
    /// up by status.
    pub fn tag(&self) -> (s: String)
        ensures
            s@ == self.spec_tag(),
    {
        match self {
            OrderStatus::Cancelled => String::from_str("Cancelled"),
            OrderStatus::Expired { .. } => String::from_str("Expired"),
            OrderStatus::Filled { .. } => String::from_str("Filled"),
            OrderStatus::Pending => String::from_str("Pending"),
            OrderStatus::PendingCancel => String::from_str("PendingCancel"),
            OrderStatus::Queued => String::from_str("Queued"),
            OrderStatus::Rejected { .. } => String::from_str("Rejected"),
        }
    }
}

impl Clone for Order {
    fn clone(&self) -> (r: Self)
        ensures
            r == *self,
    {
        Order {
            client_id: self.client_id,
            date: self.date,
            symbol: self.symbol.clone(),
            quantity: self.quantity,
            status: self.status,
            order_type: self.order_type,
            order_side: self.order_side,
        }
    }
}

/// Whether `name` reads `literal`.
pub fn is_name(name: &String, literal: &str) -> (r: bool)
    ensures
        r == (name@ == literal@),
{
    let lit = String::from_str(literal);
    same_text(name, &lit)
}

impl Document for Order {
    /// Orders can be looked up by `client_id` (the identifier as text), by
    /// `status` (the name of the variant) and by `symbol`.
    open spec fn spec_field(&self, name: Seq<char>) -> Option<Seq<char>> {
        if name == "client_id"@ {
            Some(spec_id_text(self.client_id))
        } else if name == "status"@ {
            Some(self.status.spec_tag())
        } else if name == "symbol"@ {
            Some(self.symbol@)
        } else {
            None
        }
    }

    fn field(&self, name: &str) -> (r: Option<String>) {
        let name = String::from_str(name);
        if is_name(&name, "client_id") {
            Some(id_text(self.client_id))
        } else if is_name(&name, "status") {
            Some(self.status.tag())
        } else if is_name(&name, "symbol") {
            Some(self.symbol.clone())
        } else {
            None
        }
    }
}

/// An order's identifier with its submission date.
#[derive(Clone, Copy, Debug, PartialEq, Eq, Structural)]
pub struct DatedId {
    pub id: OrderId,
    pub date: Timestamp,
}

/// Later dates come first.
pub open spec fn spec_newest_first(v: Seq<DatedId>) -> bool {
    forall|i: int, j: int| 0 <= i <= j < v.len() ==> v[i].date >= v[j].date
}

/// Orders `v` by date, latest first. Entries of one date stay in some
/// order.
pub fn sort_newest_first(v: &Vec<DatedId>) -> (r: Vec<DatedId>)
    ensures
        spec_newest_first(r@),
        r@.to_multiset() == v@.to_multiset(),
{
    let mut out: Vec<DatedId> = Vec::new();
    let mut i: usize = 0;
    assert(v@.subrange(0, 0) =~= Seq::<DatedId>::empty());
    while i < v.len()
        invariant
            i <= v@.len(),
            spec_newest_first(out@),
            out@.to_multiset() == v@.subrange(0, i as int).to_multiset(),
        decreases v.len() - i,
    {
        let item = v[i];
        let mut at: usize = 0;
        while at < out.len() && out[at].date >= item.date
            invariant
                at <= out@.len(),
                forall|k: int| 0 <= k < at ==> out@[k].date >= item.date,
            decreases out.len() - at,
        {
            at += 1;
        }
        let ghost before = out@;
        out.insert(at, item);
        proof {
            assert(out@ == before.insert(at as int, item));
            to_multiset_insert(before, at as int, item);
            assert(v@.subrange(0, i as int + 1) =~= v@.subrange(0, i as int).push(item));
            to_multiset_build(v@.subrange(0, i as int), item);
            assert forall|a: int, b: int| 0 <= a <= b < out@.len() implies out@[a].date
                >= out@[b].date by {
                if a < at && b > at {
                    assert(out@[b] == before[b - 1]);
                    assert(out@[a] == before[a]);
                } else if a < at && b < at {
                    assert(out@[a] == before[a] && out@[b] == before[b]);
                } else if a > at {
                    assert(out@[a] == before[a - 1] && out@[b] == before[b - 1]);
                } else if a == at && b > at {
                    assert(out@[b] == before[b - 1]);
                    assert(before[at as int].date < item.date);
                    assert(before[at as int].date >= before[b - 1].date);
                } else if b == at && a < at {
                    assert(out@[a] == before[a]);
                }
            }
        }
        i += 1;
    }
    assert(v@.subrange(0, v@.len() as int) =~= v@);
    out
}

/// Two lists with the same entries hold the same values, and one repeats
/// an entry only if the other does.
pub proof fn lemma_same_entries(a: Seq<DatedId>, b: Seq<DatedId>)
    requires
        a.to_multiset() == b.to_multiset(),
    ensures
        a.len() == b.len(),
        forall|x: DatedId| a.contains(x) <==> b.contains(x),
        a.no_duplicates() ==> b.no_duplicates(),
{
    to_multiset_len(a);
    to_multiset_len(b);
    assert forall|x: DatedId| a.contains(x) <==> b.contains(x) by {
        to_multiset_contains(a, x);
        to_multiset_contains(b, x);
    }
    if a.no_duplicates() {
        a.lemma_multiset_has_no_duplicates();
        b.lemma_multiset_has_no_duplicates_conv();
    }
}

/// The orders of the system by identifier.
pub type OrderRepo = InMemoryRepo<Order, OrderId>;

/// Which orders a listing selects: those of one client, or, without a
/// client, those that are not in a terminal status.
pub open spec fn spec_selected(order: Order, client: Option<ClientId>) -> bool {
    match client {
        Some(c) => order.client_id == c,
        None => !order.status.spec_is_terminal(),
    }
}

/// Whether `listed` names exactly the selected orders of `rows`, each once
/// and with its date.
pub open spec fn spec_lists_selected(
    listed: Seq<DatedId>,
    rows: Map<OrderId, Order>,
    client: Option<ClientId>,
) -> bool {
    &&& forall|i: int|
        0 <= i < listed.len() ==> {
            &&& rows.contains_key((#[trigger] listed[i]).id)
            &&& rows[listed[i].id].date == listed[i].date
            &&& spec_selected(rows[listed[i].id], client)
        }
    &&& forall|i: int, j: int|
        0 <= i < listed.len() && 0 <= j < listed.len() && (#[trigger] listed[i]).id == (
        #[trigger] listed[j]).id ==> i == j
    &&& forall|id: OrderId| #[trigger]
        rows.contains_key(id) && spec_selected(rows[id], client) ==> exists|i: int|
            0 <= i < listed.len() && (#[trigger] listed[i]).id == id
}

/// A reordering of such a listing is one too.
pub proof fn lemma_selected_reordered(
    a: Seq<DatedId>,
    b: Seq<DatedId>,
    rows: Map<OrderId, Order>,
    client: Option<ClientId>,
)
    requires
        spec_lists_selected(a, rows, client),
        a.to_multiset() == b.to_multiset(),
    ensures
        spec_lists_selected(b, rows, client),
{
    assert(a.no_duplicates()) by {
        assert forall|i: int, j: int| 0 <= i < a.len() && 0 <= j < a.len() && i != j implies a[i]
            != a[j] by {
            if a[i] == a[j] {
                assert(a[i].id == a[j].id);
            }
        }
    }
    lemma_same_entries(a, b);
    assert forall|i: int| 0 <= i < b.len() implies {
        &&& rows.contains_key((#[trigger] b[i]).id)
        &&& rows[b[i].id].date == b[i].date
        &&& spec_selected(rows[b[i].id], client)
    } by {
        assert(b.contains(b[i]));
        assert(a.contains(b[i]));
        let k = choose|k: int| 0 <= k < a.len() && a[k] == b[i];
        assert(rows.contains_key(a[k].id));
    }
    assert forall|i: int, j: int|
        0 <= i < b.len() && 0 <= j < b.len() && (#[trigger] b[i]).id == (
        #[trigger] b[j]).id implies i == j by {
        assert(b.contains(b[i]) && b.contains(b[j]));
        assert(a.contains(b[i]) && a.contains(b[j]));
        let k = choose|k: int| 0 <= k < a.len() && a[k] == b[i];
        let l = choose|l: int| 0 <= l < a.len() && a[l] == b[j];
        assert(a[k].id == a[l].id);
        assert(k == l);
        assert(b[i] == b[j]);
    }
    assert forall|id: OrderId| #[trigger]
        rows.contains_key(id) && spec_selected(rows[id], client) implies exists|i: int|
        0 <= i < b.len() && (#[trigger] b[i]).id == id by {
        let k = choose|k: int| 0 <= k < a.len() && (#[trigger] a[k]).id == id;
        assert(a.contains(a[k]));
        assert(b.contains(a[k]));
        let i = choose|i: int| 0 <= i < b.len() && b[i] == a[k];
        assert(b[i].id == id);
    }
}

/// Whether some stored order has an identifier of the form of a fresh
/// one, which alone a fresh identifier can run into.
pub open spec fn spec_holds_fresh_order_id(rows: Map<OrderId, Order>) -> bool {
    exists|id: OrderId| #[trigger] rows.contains_key(id) && id & ID_FORMAT_MASK == ID_FORMAT_RANDOM
}

/// The message of the store's refusal of an identifier that is taken.
pub open spec fn spec_duplicate_order_message() -> Seq<char> {
    "duplicate key value violates unique constraint"@
}

/// Operations on the store of orders.
pub trait OrderRepoExt {
    /// Stores `order` in status `Queued` under a fresh identifier. The
    /// store is unchanged when it refuses.
    fn create_order(&mut self, order: Order) -> Result<OrderId, DbError>;

    /// Stores `order` in status `Queued` under `id`, unless the identifier
    /// is taken, which the store refuses.
    fn insert_order(&mut self, id: OrderId, order: Order) -> Result<OrderId, DbError>;

    /// The orders of `client`, or without a client the orders that are not
    /// in a terminal status; latest submission first.
    fn list_orders(&self, client: Option<ClientId>) -> Vec<DatedId>;

    /// The orders of `user_id` with their identifiers, each once, latest
    /// submission first. They are looked up by the text of the identifier
    /// in the field `client_id`.
    fn get_orders_for_user(&self, user_id: &ClientId) -> Result<Vec<(OrderId, Order)>, DbError>;
}

impl OrderRepoExt for OrderRepo {
    /// Stores `order` in status `Queued` under a fresh identifier. The
    /// store refuses, and is unchanged, only where the fresh identifier is
    /// taken, which takes a stored identifier of the form of a fresh one.
    fn create_order(&mut self, order: Order) -> (r: Result<OrderId, DbError>)
        ensures
            match r {
                Ok(id) => {
                    &&& id & ID_FORMAT_MASK == ID_FORMAT_RANDOM
                    &&& !old(self)@.contains_key(id)
                    &&& final(self)@ == old(self)@.insert(
                        id,
                        Order { status: OrderStatus::Queued, ..order },
                    )
                },
                Err(e) => {
                    &&& final(self)@ == old(self)@
                    &&& e@ == DbErrorView::SqlxError(spec_duplicate_order_message())
                    &&& spec_holds_fresh_order_id(old(self)@)
                },
            },
    {
        let id = fresh_id();
        let r = self.insert_order(id, order);
        proof {
            if r is Err {
                assert(old(self)@.contains_key(id));
            }
        }
        r
    }

    /// Stores `order` in status `Queued` under `id`, unless the identifier
    /// is taken, which the store refuses.
    fn insert_order(&mut self, id: OrderId, order: Order) -> (r: Result<OrderId, DbError>)
        ensures
            match r {
                Ok(got) => got == id && !old(self)@.contains_key(id) && final(self)@ == old(
                    self,
                )@.insert(id, Order { status: OrderStatus::Queued, ..order }),
                Err(e) => old(self)@.contains_key(id) && final(self)@ == old(self)@ && e@
                    == DbErrorView::SqlxError(spec_duplicate_order_message()),
            },
    {
        if self.get(&id).is_some() {
            return Err(
                DbError::SqlxError(
                    String::from_str("duplicate key value violates unique constraint"),
                ),
            );
        }
        let mut order = order;
        order.status = OrderStatus::Queued;
        self.insert(id, order);
        Ok(id)
    }

    /// The orders of `client`, or without a client the orders that are not
    /// in a terminal status; latest submission first.
    fn list_orders(&self, client: Option<ClientId>) -> (r: Vec<DatedId>)
        ensures
            spec_lists_selected(r@, self@, client),
            spec_newest_first(r@),
    {
        let all = self.iter();
        let mut found: Vec<DatedId> = Vec::new();
        let ghost mut picked: Seq<int> = Seq::empty();
        let mut i: usize = 0;
        while i < all.len()
            invariant
                i <= all@.len(),
                spec_lists_rows(all@, self@),
                picked.len() == found@.len(),
                forall|k: int|
                    0 <= k < found@.len() ==> {
                        &&& 0 <= #[trigger] picked[k] < i
                        &&& found@[k].id == *all@[picked[k]].0
                        &&& found@[k].date == (*all@[picked[k]].1).date
                        &&& spec_selected(*all@[picked[k]].1, client)
                    },
                forall|a: int, b: int| 0 <= a < b < picked.len() ==> picked[a] < picked[b],
                forall|j: int|
                    0 <= j < i && spec_selected(*(#[trigger] all@[j]).1, client) ==> exists|k: int|
                        0 <= k < found@.len() && #[trigger] picked[k] == j,
            decreases all.len() - i,
        {
            let id: OrderId = *all[i].0;
            let order: &Order = all[i].1;
            let hit = match client {
                Some(c) => order.client_id == c,
                None => !order.status.is_terminal(),
            };
            if hit {
                found.push(DatedId { id, date: order.date });
                proof {
                    let ghost before = picked;
                    picked = picked.push(i as int);
                    assert forall|j: int|
                        0 <= j < i + 1 && spec_selected(
                            *(#[trigger] all@[j]).1,
                            client,
                        ) implies exists|k: int| 0 <= k < found@.len() && #[trigger] picked[k]
                        == j by {
                        if j < i {
                            let k = choose|k: int|
                                0 <= k < before.len() && #[trigger] before[k] == j;
                            assert(picked[k] == j);
                        } else {
                            assert(picked[before.len() as int] == j);
                        }
                    }
                }
            }
            i += 1;
        }
        proof {
            assert forall|n: int| 0 <= n < found@.len() implies {
                &&& self@.contains_key((#[trigger] found@[n]).id)
                &&& self@[found@[n].id].date == found@[n].date
                &&& spec_selected(self@[found@[n].id], client)
            } by {
                let j = picked[n];
                assert(self@.contains_key(*all@[j].0) && self@[*all@[j].0] == *all@[j].1);
            }
            assert forall|a: int, b: int|
                0 <= a < found@.len() && 0 <= b < found@.len() && (#[trigger] found@[a]).id == (
                #[trigger] found@[b]).id implies a == b by {
                assert(*all@[picked[a]].0 == *all@[picked[b]].0);
                assert(picked[a] == picked[b]);
                if a < b {
                    assert(picked[a] < picked[b]);
                }
                if b < a {
                    assert(picked[b] < picked[a]);
                }
            }
            assert forall|id: OrderId| #[trigger]
                self@.contains_key(id) && spec_selected(self@[id], client) implies exists|n: int|
                0 <= n < found@.len() && (#[trigger] found@[n]).id == id by {
                let j = choose|j: int| 0 <= j < all@.len() && *(#[trigger] all@[j]).0 == id;
                assert(self@[*all@[j].0] == *all@[j].1);
                let k = choose|k: int| 0 <= k < found@.len() && #[trigger] picked[k] == j;
                assert(found@[k].id == id);
            }
        }
        let sorted = sort_newest_first(&found);
        proof {
            lemma_selected_reordered(found@, sorted@, self@, client);
        }
        sorted
    }

    /// The orders of `user_id` with their identifiers, each once, latest
    /// submission first. They are looked up by the text of the identifier
    /// in the field `client_id`.
    fn get_orders_for_user(&self, user_id: &ClientId) -> (r: Result<
        Vec<(OrderId, Order)>,
        DbError,
    >)
        ensures
            r is Ok,
            ({
                let listed = r->Ok_0@;
                &&& forall|i: int|
                    0 <= i < listed.len() ==> {
                        &&& self@.contains_key((#[trigger] listed[i]).0)
                        &&& self@[listed[i].0] == listed[i].1
                        &&& listed[i].1.client_id == *user_id
                    }
                &&& forall|i: int, j: int|
                    0 <= i < listed.len() && 0 <= j < listed.len() && (#[trigger] listed[i]).0 == (
                    #[trigger] listed[j]).0 ==> i == j
                &&& forall|id: OrderId| #[trigger]
                    self@.contains_key(id) && self@[id].client_id == *user_id ==> exists|i: int|
                        0 <= i < listed.len() && (#[trigger] listed[i]).0 == id
                &&& forall|i: int, j: int|
                    0 <= i <= j < listed.len() ==> listed[i].1.date >= listed[j].1.date
            }),
    {
        let text = id_text(*user_id);
        let found = self.find_all_by_field("client_id", text.as_str());
        let mut dated: Vec<DatedId> = Vec::new();
        let mut k: usize = 0;
        while k < found.len()
            invariant
                k <= found@.len(),
                dated@.len() == k,
                forall|n: int|
                    0 <= n < k ==> (#[trigger] dated@[n]).id == *found@[n].0 && dated@[n].date == (
                    *found@[n].1).date,
            decreases found.len() - k,
        {
            dated.push(DatedId { id: *found[k].0, date: found[k].1.date });
            k += 1;
        }
        proof {
            let client = Some(*user_id);
            assert forall|n: int| 0 <= n < dated@.len() implies {
                &&& self@.contains_key((#[trigger] dated@[n]).id)
                &&& self@[dated@[n].id].date == dated@[n].date
                &&& spec_selected(self@[dated@[n].id], client)
            } by {
                assert(self@[*found@[n].0] == *found@[n].1);
                assert((*found@[n].1).spec_field("client_id"@) == Some(text@));
                lemma_id_text_injective((*found@[n].1).client_id, *user_id);
            }
            assert forall|a: int, b: int|
                0 <= a < dated@.len() && 0 <= b < dated@.len() && (#[trigger] dated@[a]).id == (
                #[trigger] dated@[b]).id implies a == b by {
                assert(*found@[a].0 == *found@[b].0);
            }
            assert forall|id: OrderId| #[trigger]
                self@.contains_key(id) && spec_selected(self@[id], client) implies exists|n: int|
                0 <= n < dated@.len() && (#[trigger] dated@[n]).id == id by {
                assert(self@[id].spec_field("client_id"@) == Some(text@));
                let n = choose|n: int| 0 <= n < found@.len() && *(#[trigger] found@[n]).0 == id;
                assert(dated@[n].id == id);
            }
        }
        let ids = sort_newest_first(&dated);
        proof {
            lemma_selected_reordered(dated@, ids@, self@, Some(*user_id));
        }
        let mut out: Vec<(OrderId, Order)> = Vec::new();
        let mut i: usize = 0;
        while i < ids.len()
            invariant
                i <= ids@.len(),
                out@.len() == i,
                spec_lists_selected(ids@, self@, Some(*user_id)),
                forall|k: int|
                    0 <= k < i ==> (#[trigger] out@[k]).0 == ids@[k].id && out@[k].1
                        == self@[ids@[k].id],
            decreases ids.len() - i,
        {
            let id = ids[i].id;
            match self.get(&id) {
                Some(order) => {
                    out.push((id, order.clone()));
                },
                None => {
                    assert(false);
                },
            }
            i += 1;
        }
        proof {
            let listed = out@;
            assert forall|id: OrderId| #[trigger]
                self@.contains_key(id) && self@[id].client_id == *user_id implies exists|n: int|
                0 <= n < listed.len() && (#[trigger] listed[n]).0 == id by {
                assert(spec_selected(self@[id], Some(*user_id)));
                let k = choose|k: int| 0 <= k < ids@.len() && (#[trigger] ids@[k]).id == id;
                assert(listed[k].0 == id);
            }
            assert forall|a: int, b: int| 0 <= a <= b < listed.len() implies listed[a].1.date
                >= listed[b].1.date by {
                assert(listed[a].0 == ids@[a].id);
                assert(listed[b].0 == ids@[b].id);
                assert(ids@[a].date >= ids@[b].date);
            }
        }
        Ok(out)
    }
}

} // verus!
