//! The service levels that the system is held to, and the figures of a
//! load run measured against them.

use crate::broker::BrokerX;
use crate::db::DbErrorView;
use crate::money::Money;
use crate::sys::spec_kdf_verifies;
use crate::text::{
    chars_to_string, lemma_decimal_injective, push_decimal, push_str, spec_decimal,
};
use crate::user::{
    lemma_ascii_password_len, spec_duplicate_key_message, spec_has_email, spec_hash_refused,
    spec_is_hash_of, spec_password_len, AuthError, AuthErrorView, User, UserId, UserRepoExt,
};
use vstd::prelude::*;
use vstd::string::StringExecFns;

verus! {

/// The 95th percentile of the latency may be at most this many
/// milliseconds.
pub const MAX_P95_LATENCY_MS: u64 = 500;

/// At least this many orders must be acknowledged per second.
pub const MIN_THROUGHPUT_PER_SECOND: u64 = 300;

/// At least this many of a hundred submitted orders must be acknowledged.
pub const MIN_SUCCESS_PERCENT: u64 = 90;

/// The figures of a load run.
#[derive(Clone, Copy, Debug, PartialEq, Eq, Structural)]
pub struct BenchmarkMetrics {
    pub orders_submitted: u64,
    pub orders_acknowledged: u64,
    pub orders_failed: u64,
    /// The 95th percentile of the measured latencies, in milliseconds.
    pub p95_latency_ms: u64,
    /// How long the run took, in microseconds.
    pub elapsed_micros: u64,
}

impl BenchmarkMetrics {
    /// Whether the latency is within its level.
    pub open spec fn spec_latency_ok(&self) -> bool {
        self.p95_latency_ms <= MAX_P95_LATENCY_MS
    }

    /// Whether the throughput reaches its level: acknowledged orders per
    /// second of the run. A run of no duration has no throughput.
    pub open spec fn spec_throughput_ok(&self) -> bool {
        self.elapsed_micros > 0 && self.orders_acknowledged * 1_000_000
            >= MIN_THROUGHPUT_PER_SECOND * self.elapsed_micros
    }

    /// Whether the share of acknowledged orders reaches its level. A run
    /// that submitted nothing has no share.
    pub open spec fn spec_availability_ok(&self) -> bool {
        self.orders_submitted > 0 && self.orders_acknowledged * 100 >= MIN_SUCCESS_PERCENT
            * self.orders_submitted
    }

    /// The figures of a run that has not begun.
    pub fn new() -> (m: Self)
        ensures
            m == (BenchmarkMetrics {
                orders_submitted: 0,
                orders_acknowledged: 0,
                orders_failed: 0,
                p95_latency_ms: 0,
                elapsed_micros: 0,
            }),
    {
        BenchmarkMetrics {
            orders_submitted: 0,
            orders_acknowledged: 0,
            orders_failed: 0,
            p95_latency_ms: 0,
            elapsed_micros: 0,
        }
    }

    /// Counts an order as submitted. The count wraps around.
    pub fn record_submission(&mut self)
        ensures
            final(self).orders_submitted == old(self).orders_submitted.wrapping_add(1),
            *final(self) == (BenchmarkMetrics {
                orders_submitted: final(self).orders_submitted,
                ..*old(self)
            }),
    {
        self.orders_submitted = self.orders_submitted.wrapping_add(1);
    }

    /// Counts an order as acknowledged. The count wraps around.
    pub fn record_acknowledgment(&mut self)
        ensures
            final(self).orders_acknowledged == old(self).orders_acknowledged.wrapping_add(1),
            *final(self) == (BenchmarkMetrics {
                orders_acknowledged: final(self).orders_acknowledged,
                ..*old(self)
            }),
    {
        self.orders_acknowledged = self.orders_acknowledged.wrapping_add(1);
    }

    /// Counts an order as failed. The count wraps around.
    pub fn record_failure(&mut self)
        ensures
            final(self).orders_failed == old(self).orders_failed.wrapping_add(1),
            *final(self) == (BenchmarkMetrics {
                orders_failed: final(self).orders_failed,
                ..*old(self)
            }),
    {
        self.orders_failed = self.orders_failed.wrapping_add(1);
    }

    /// Whether the latency is within its level.
    pub fn latency_ok(&self) -> (b: bool)
        ensures
            b == self.spec_latency_ok(),
    {
        self.p95_latency_ms <= MAX_P95_LATENCY_MS
    }

    /// Whether the throughput reaches its level.
    pub fn throughput_ok(&self) -> (b: bool)
        ensures
            b == self.spec_throughput_ok(),
    {
        let needed: u128 = 300 * (self.elapsed_micros as u128);
        assert(needed == MIN_THROUGHPUT_PER_SECOND * self.elapsed_micros);
        self.elapsed_micros > 0 && (self.orders_acknowledged as u128) * 1_000_000 >= needed
    }

    /// Whether the share of acknowledged orders reaches its level.
    pub fn availability_ok(&self) -> (b: bool)
        ensures
            b == self.spec_availability_ok(),
    {
        let needed: u128 = 90 * (self.orders_submitted as u128);
        assert(needed == MIN_SUCCESS_PERCENT * self.orders_submitted);
        self.orders_submitted > 0 && (self.orders_acknowledged as u128) * 100 >= needed
    }

    /// Whether the run meets every level.
    pub fn meets_requirements(&self) -> (b: bool)
        ensures
            b == (self.spec_latency_ok() && self.spec_throughput_ok()
                && self.spec_availability_ok()),
    {
        self.latency_ok() && self.throughput_ok() && self.availability_ok()
    }

    /// The throughput in hundredths of an order per second, rounded down;
    /// zero for a run of no duration.
    pub fn get_throughput(&self) -> (t: u128)
        ensures
            t == (if self.elapsed_micros == 0 {
                0
            } else {
                (self.orders_acknowledged * 100_000_000) / (self.elapsed_micros as int)
            }),
    {
        if self.elapsed_micros == 0 {
            0
        } else {
            (self.orders_acknowledged as u128) * 100_000_000 / (self.elapsed_micros as u128)
        }
    }
}

/// The balance of a user of a load run, in fixed-point units:
/// 10 000 000.00.
pub const TEST_USER_BALANCE_UNITS: u128 = 100_000_000_000;

/// A user of a load run.
#[derive(Clone, Copy, Debug, PartialEq, Eq, Structural)]
pub struct TestUser {
    pub id: UserId,
}

/// The address of the `i`-th user of the load run stamped `timestamp`.
pub open spec fn spec_test_address(timestamp: u64, i: usize) -> Seq<char> {
    "test_user_"@ + spec_decimal(timestamp as nat) + "_"@ + spec_decimal(i as nat)
        + "@benchmark.test"@
}

/// The first name of the `i`-th user of a load run.
pub open spec fn spec_test_name(i: usize) -> Seq<char> {
    "User"@ + spec_decimal(i as nat)
}

/// The password of every user of a load run.
pub open spec fn spec_test_password() -> Seq<char> {
    "password123"@
}

/// Whether `user` is the `i`-th user of the load run stamped
/// `timestamp`, registered and verified.
pub open spec fn spec_is_test_user(user: User, id: UserId, timestamp: u64, i: usize) -> bool {
    &&& user@.id == Some(id)
    &&& user@.email == spec_test_address(timestamp, i)
    &&& user@.firstname == spec_test_name(i)
    &&& user@.surname == "Test"@
    &&& user@.balance.units == TEST_USER_BALANCE_UNITS
    &&& user@.is_verified
    &&& spec_kdf_verifies(spec_test_password(), user@.password_hash)
    &&& spec_is_hash_of(spec_test_password(), user@.password_hash)
}

/// Whether one of the addresses of a load run of `num_users` users
/// stamped `timestamp` is taken in `users`.
pub open spec fn spec_run_address_taken(
    users: Map<UserId, User>,
    num_users: usize,
    timestamp: u64,
) -> bool {
    exists|n: int|
        0 <= n < num_users && #[trigger] spec_has_email(
            users,
            spec_test_address(timestamp, n as usize),
        )
}

/// Two users of one load run have different addresses.
pub proof fn lemma_test_addresses_differ(timestamp: u64, i: usize, j: usize)
    requires
        spec_test_address(timestamp, i) == spec_test_address(timestamp, j),
    ensures
        i == j,
{
    let head = "test_user_"@ + spec_decimal(timestamp as nat) + "_"@;
    let tail = "@benchmark.test"@;
    let di = spec_decimal(i as nat);
    let dj = spec_decimal(j as nat);
    let ai = spec_test_address(timestamp, i);
    let aj = spec_test_address(timestamp, j);
    assert(ai =~= head + di + tail);
    assert(aj =~= head + dj + tail);
    assert(ai.len() == head.len() + di.len() + tail.len());
    assert(aj.len() == head.len() + dj.len() + tail.len());
    assert forall|k: int| 0 <= k < di.len() implies di[k] == dj[k] by {
        assert(ai[head.len() + k] == di[k]);
        assert(aj[head.len() + k] == dj[k]);
    }
    assert(di =~= dj);
    lemma_decimal_injective(i as nat, j as nat);
}

/// Registers and verifies `num_users` users for a load run stamped
/// `timestamp`.
///
/// The run succeeds unless a registration is refused; the first refusal
/// ends it and is returned, and the users registered until then stay. An
/// address is refused as taken only where the store held an address of the
/// run before it began; the other refusals are those of the password hash
/// and of the store.
pub fn setup_test_users(broker: &mut BrokerX, num_users: usize, timestamp: u64) -> (r: Result<
    Vec<TestUser>,
    AuthError,
>)
    requires
        old(broker).wf(),
    ensures
        final(broker).wf(),
        final(broker).state().orders == old(broker).state().orders,
        final(broker).state().queue == old(broker).state().queue,
        final(broker).state().is_running == old(broker).state().is_running,
        final(broker).processing_pool.should_stop == old(broker).processing_pool.should_stop,
        final(broker).processing_pool.num_workers == old(broker).processing_pool.num_workers,
        final(broker).pre_trade_validator == old(broker).pre_trade_validator,
        final(broker).mfa_service == old(broker).mfa_service,
        forall|id: UserId| #[trigger]
            old(broker).state().users.contains_key(id) ==> final(broker).state().users.contains_key(
                id,
            ) && final(broker).state().users[id] == old(broker).state().users[id],
        match r {
            Ok(made) => {
                &&& made@.len() == num_users
                &&& !spec_run_address_taken(old(broker).state().users, num_users, timestamp)
                &&& forall|i: int|
                    0 <= i < num_users ==> {
                        &&& !old(broker).state().users.contains_key((#[trigger] made@[i]).id)
                        &&& final(broker).state().users.contains_key(made@[i].id)
                        &&& spec_is_test_user(
                            final(broker).state().users[made@[i].id],
                            made@[i].id,
                            timestamp,
                            i as usize,
                        )
                    }
            },
            Err(e) => {
                &&& num_users > 0
                &&& {
                    ||| e@ == AuthErrorView::UserAlreadyExists && spec_run_address_taken(
                        old(broker).state().users,
                        num_users,
                        timestamp,
                    )
                    ||| e@ == AuthErrorView::PasswordHashFailed && spec_hash_refused(
                        spec_test_password(),
                    )
                    ||| e@ == AuthErrorView::UserRepo(
                        DbErrorView::SqlxError(spec_duplicate_key_message()),
                    )
                }
            },
        },
{
    let mut users: Vec<TestUser> = Vec::new();
    let mut i: usize = 0;
    proof {
        reveal_strlit("password123");
        lemma_ascii_password_len(spec_test_password());
    }
    while i < num_users
        invariant
            i <= num_users,
            users@.len() == i,
            broker.wf(),
            spec_password_len(spec_test_password()) == 11,
            broker.state().orders == old(broker).state().orders,
            broker.state().queue == old(broker).state().queue,
            broker.state().is_running == old(broker).state().is_running,
            broker.processing_pool.should_stop == old(broker).processing_pool.should_stop,
            broker.processing_pool.num_workers == old(broker).processing_pool.num_workers,
            broker.pre_trade_validator == old(broker).pre_trade_validator,
            broker.mfa_service == old(broker).mfa_service,
            forall|id: UserId| #[trigger]
                old(broker).state().users.contains_key(id) ==> broker.state().users.contains_key(id)
                    && broker.state().users[id] == old(broker).state().users[id],
            forall|id: UserId| #[trigger]
                broker.state().users.contains_key(id) ==> old(broker).state().users.contains_key(id)
                    || exists|n: int| 0 <= n < i && (#[trigger] users@[n]).id == id,
            forall|n: int|
                0 <= n < i ==> !(#[trigger] spec_has_email(
                    old(broker).state().users,
                    spec_test_address(timestamp, n as usize),
                )),
            forall|k: int|
                0 <= k < i ==> {
                    &&& !old(broker).state().users.contains_key((#[trigger] users@[k]).id)
                    &&& broker.state().users.contains_key(users@[k].id)
                    &&& spec_is_test_user(
                        broker.state().users[users@[k].id],
                        users@[k].id,
                        timestamp,
                        k as usize,
                    )
                },
        decreases num_users - i,
    {
        let ghost before = broker.state().users;
        let ghost began = old(broker).state().users;
        let ghost made = users@;
        let ghost address = spec_test_address(timestamp, i);
        let mut email: Vec<char> = Vec::new();
        push_str("test_user_", &mut email);
        push_decimal(timestamp as u128, &mut email);
        push_str("_", &mut email);
        push_decimal(i as u128, &mut email);
        push_str("@benchmark.test", &mut email);
        assert(email@ =~= address);
        let mut name: Vec<char> = Vec::new();
        push_str("User", &mut name);
        push_decimal(i as u128, &mut name);
        assert(name@ =~= spec_test_name(i));
        proof {
            // An address of the run that is taken now was taken when the run
            // began: the users of the run have other addresses.
            if spec_has_email(before, address) {
                let taken = choose|id: UserId|
                    #[trigger] before.contains_key(id) && before[id]@.email == address;
                if !began.contains_key(taken) {
                    let n = choose|n: int| 0 <= n < i && (#[trigger] made[n]).id == taken;
                    lemma_test_addresses_differ(timestamp, n as usize, i);
                }
                assert(began.contains_key(taken) && began[taken]@.email == address);
                assert(spec_has_email(began, spec_test_address(timestamp, i as int as usize)));
            }
            if spec_has_email(began, address) {
                let taken = choose|id: UserId|
                    #[trigger] began.contains_key(id) && began[id]@.email == address;
                assert(before.contains_key(taken) && before[taken]@.email == address);
            }
        }
        let id = match broker.processing_pool.shared_state.user_repo.create_user(
            chars_to_string(&email),
            String::from_str("password123"),
            chars_to_string(&name),
            String::from_str("Test"),
            Money { units: TEST_USER_BALANCE_UNITS },
        ) {
            Ok(id) => id,
            Err(e) => {
                return Err(e);
            },
        };
        match broker.processing_pool.shared_state.user_repo.verify_user_email(&id) {
            Ok(()) => {},
            Err(e) => {
                assert(false);
                return Err(e);
            },
        }
        users.push(TestUser { id });
        proof {
            assert forall|k: int| 0 <= k < i + 1 implies {
                &&& !old(broker).state().users.contains_key((#[trigger] users@[k]).id)
                &&& broker.state().users.contains_key(users@[k].id)
                &&& spec_is_test_user(
                    broker.state().users[users@[k].id],
                    users@[k].id,
                    timestamp,
                    k as usize,
                )
            } by {
                if k < i {
                    assert(before.contains_key(users@[k].id));
                    assert(users@[k].id != id);
                } else {
                    assert(!before.contains_key(id));
                    if old(broker).state().users.contains_key(id) {
                        assert(before.contains_key(id));
                    }
                }
            }
            assert forall|other: UserId| #[trigger]
                broker.state().users.contains_key(other) implies began.contains_key(other)
                || exists|n: int| 0 <= n < i + 1 && (#[trigger] users@[n]).id == other by {
                if other == id {
                    assert(users@[i as int].id == other);
                } else {
                    assert(before.contains_key(other));
                    if !began.contains_key(other) {
                        let n = choose|n: int| 0 <= n < i && (#[trigger] made[n]).id == other;
                        assert(users@[n] == made[n]);
                    }
                }
            }
        }
        i += 1;
    }
    Ok(users)
}

} // verus!
