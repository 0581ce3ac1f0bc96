//! The user ledger: the user record, its cash balance and its holdings.

use crate::db::{DbError, DbErrorView, Document};
use crate::in_memory::InMemoryRepo;
use crate::order::is_name;
use crate::mfa::{spec_flag_result, MfaError, MfaErrorView, MfaProvider, MfaService};
use crate::money::{spec_notional, Money, Price};
use crate::order::{OrderSide, Timestamp};
use crate::portfolio::{
    lemma_positions_sound, spec_bought_at_average, spec_held, spec_positions_sound, spec_signed,
    spec_updated_positions, Holding, HoldingView, Holdings,
};
use crate::sys::{
    fresh_id, kdf_hash, kdf_verify, now_micros, random_salt, spec_kdf_hash, spec_kdf_verifies,
    ID_FORMAT_MASK, ID_FORMAT_RANDOM,
};
use crate::text::{chars_to_string, push_str};
use vstd::prelude::*;
use vstd::string::StringExecFns;
use vstd::utf8::encode_utf8;

verus! {

/// Identifies a user: an opaque 128-bit value.
pub type UserId = u128;

/// The fewest bytes a password may have.
pub const MIN_PASSWORD_LEN: usize = 6;

/// The length of a password as it is measured: in bytes of UTF-8.
pub open spec fn spec_password_len(password: Seq<char>) -> nat {
    encode_utf8(password).len()
}

/// The length of `s` in bytes of UTF-8.
pub fn byte_len(s: &str) -> (n: usize)
    ensures
        n == spec_password_len(s@),
{
    s.as_bytes().len()
}

/// A text as a plain value, if there is one.
pub open spec fn spec_optional_text(t: Option<String>) -> Option<Seq<char>> {
    match t {
        Some(s) => Some(s@),
        None => None,
    }
}

/// Whether `hashed` is what the hash function gives for `password` under
/// `salt`: a hash, which then accepts the password, or a refusal.
pub open spec fn spec_hashed_under(
    password: Seq<char>,
    salt: u128,
    hashed: Option<Seq<char>>,
) -> bool {
    &&& spec_kdf_hash(password, salt) == hashed
    &&& hashed matches Some(h) ==> spec_kdf_verifies(password, h)
}

/// Whether `hash` is what the hash function gives for `password` under
/// some salt.
pub open spec fn spec_is_hash_of(password: Seq<char>, hash: Seq<char>) -> bool {
    exists|salt: u128| #[trigger] spec_kdf_hash(password, salt) == Some(hash)
}

/// Whether the hash function refuses `password` under some salt.
pub open spec fn spec_hash_refused(password: Seq<char>) -> bool {
    exists|salt: u128| #[trigger] spec_kdf_hash(password, salt) is None
}

/// A text of ASCII characters has as many bytes as characters.
pub proof fn lemma_ascii_password_len(password: Seq<char>)
    requires
        vstd::utf8::is_ascii_chars(password),
    ensures
        spec_password_len(password) == password.len(),
{
    vstd::utf8::is_ascii_chars_encode_utf8(password);
}

/// A withdrawal asked for more than the balance.
#[derive(Debug, Clone, Copy, PartialEq, Eq, Structural)]
pub struct NotEnoughMoneyError;

/// Why a ledger or account operation failed.
#[derive(Debug)]
pub enum AuthError {
    UserNotFound,
    InvalidPassword,
    UserAlreadyExists,
    WeakPassword,
    MfaRequired,
    MfaFailed(MfaError),
    NotVerified(UserId),
    UserRepo(DbError),
    NotEnoughMoneyError,
    /// The password hash function refused the password.
    PasswordHashFailed,
    /// The balance after a deposit would not fit in an amount.
    BalanceOverflow,
}

/// The mathematical value of an [`AuthError`].
pub enum AuthErrorView {
    UserNotFound,
    InvalidPassword,
    UserAlreadyExists,
    WeakPassword,
    MfaRequired,
    MfaFailed(MfaErrorView),
    NotVerified(UserId),
    UserRepo(DbErrorView),
    NotEnoughMoneyError,
    PasswordHashFailed,
    BalanceOverflow,
}

impl View for AuthError {
    type V = AuthErrorView;

    open spec fn view(&self) -> AuthErrorView {
        match self {
            AuthError::UserNotFound => AuthErrorView::UserNotFound,
            AuthError::InvalidPassword => AuthErrorView::InvalidPassword,
            AuthError::UserAlreadyExists => AuthErrorView::UserAlreadyExists,
            AuthError::WeakPassword => AuthErrorView::WeakPassword,
            AuthError::MfaRequired => AuthErrorView::MfaRequired,
            AuthError::MfaFailed(e) => AuthErrorView::MfaFailed(e@),
            AuthError::NotVerified(id) => AuthErrorView::NotVerified(*id),
            AuthError::UserRepo(e) => AuthErrorView::UserRepo(e@),
            AuthError::NotEnoughMoneyError => AuthErrorView::NotEnoughMoneyError,
            AuthError::PasswordHashFailed => AuthErrorView::PasswordHashFailed,
            AuthError::BalanceOverflow => AuthErrorView::BalanceOverflow,
        }
    }
}

impl AuthErrorView {
    /// The text shown for this failure.
    pub open spec fn message(self) -> Seq<char> {
        match self {
            AuthErrorView::UserNotFound => "User not found"@,
            AuthErrorView::InvalidPassword => "Invalid password"@,
            AuthErrorView::UserAlreadyExists => "User already exists"@,
            AuthErrorView::WeakPassword => "Password is too weak"@,
            AuthErrorView::MfaRequired => "Multi-factor authentication required"@,
            AuthErrorView::MfaFailed(e) => "MFA failed: "@ + e.message(),
            AuthErrorView::NotVerified(_) => "User email not verified"@,
            AuthErrorView::UserRepo(e) => "User repository error: "@ + e.message(),
            AuthErrorView::NotEnoughMoneyError => "Not enough money in account"@,
            AuthErrorView::PasswordHashFailed => "Password could not be hashed"@,
            AuthErrorView::BalanceOverflow => "Balance out of range"@,
        }
    }
}

impl AuthError {
    /// The text shown for this failure.
    pub fn message(&self) -> (s: String)
        ensures
            s@ == self@.message(),
    {
        let mut out: Vec<char> = Vec::new();
        match self {
            AuthError::UserNotFound => {
                push_str("User not found", &mut out);
            },
            AuthError::InvalidPassword => {
                push_str("Invalid password", &mut out);
            },
            AuthError::UserAlreadyExists => {
                push_str("User already exists", &mut out);
            },
            AuthError::WeakPassword => {
                push_str("Password is too weak", &mut out);
            },
            AuthError::MfaRequired => {
                push_str("Multi-factor authentication required", &mut out);
            },
            AuthError::MfaFailed(e) => {
                push_str("MFA failed: ", &mut out);
                let inner = e.message();
                push_str(inner.as_str(), &mut out);
            },
            AuthError::NotVerified(_) => {
                push_str("User email not verified", &mut out);
            },
            AuthError::UserRepo(e) => {
                push_str("User repository error: ", &mut out);
                let inner = e.message();
                push_str(inner.as_str(), &mut out);
            },
            AuthError::NotEnoughMoneyError => {
                push_str("Not enough money in account", &mut out);
            },
            AuthError::PasswordHashFailed => {
                push_str("Password could not be hashed", &mut out);
            },
            AuthError::BalanceOverflow => {
                push_str("Balance out of range", &mut out);
            },
        }
        assert(out@ =~= self@.message());
        chars_to_string(&out)
    }
}

/// A registered user with a cash balance and holdings.
#[derive(Debug)]
pub struct User {
    pub id: Option<UserId>,
    pub email: String,
    pub password_hash: String,
    pub firstname: String,
    pub surname: String,
    pub balance: Money,
    pub is_verified: bool,
    pub created_at: Timestamp,
    pub holdings: Holdings,
}

/// The mathematical value of a [`User`].
pub struct UserView {
    pub id: Option<UserId>,
    pub email: Seq<char>,
    pub password_hash: Seq<char>,
    pub firstname: Seq<char>,
    pub surname: Seq<char>,
    pub balance: Money,
    pub is_verified: bool,
    pub created_at: Timestamp,
    pub holdings: Map<Seq<char>, HoldingView>,
}

impl View for User {
    type V = UserView;

    open spec fn view(&self) -> UserView {
        UserView {
            id: self.id,
            email: self.email@,
            password_hash: self.password_hash@,
            firstname: self.firstname@,
            surname: self.surname@,
            balance: self.balance,
            is_verified: self.is_verified,
            created_at: self.created_at,
            holdings: self.holdings@,
        }
    }
}

impl Clone for User {
    fn clone(&self) -> (r: Self)
        ensures
            r@ == self@,
            r.wf() == self.wf(),
    {
        User {
            id: self.id,
            email: self.email.clone(),
            password_hash: self.password_hash.clone(),
            firstname: self.firstname.clone(),
            surname: self.surname.clone(),
            balance: self.balance,
            is_verified: self.is_verified,
            created_at: self.created_at,
            holdings: self.holdings.clone(),
        }
    }
}

/// The cost basis of a list of positions: the sum of average cost times
/// quantity.
pub open spec fn spec_cost_basis(entries: Seq<HoldingView>) -> int
    decreases entries.len(),
{
    if entries.len() == 0 {
        0
    } else {
        spec_cost_basis(entries.drop_last()) + entries.last().average_cost.units
            * entries.last().quantity
    }
}

impl User {
    /// Every position is of at least one share, and no symbol has two.
    pub open spec fn wf(&self) -> bool {
        self.holdings.wf()
    }

    /// A new, unverified user without holdings, given the outcome of
    /// hashing the chosen password.
    pub fn with_password_hash(
        email: String,
        password_hash: Option<String>,
        firstname: String,
        surname: String,
        initial_balance: Money,
        now: Timestamp,
    ) -> (r: Result<User, AuthError>)
        ensures
            match r {
                Ok(u) => password_hash is Some && u.wf() && u@ == (UserView {
                    id: None,
                    email: email@,
                    password_hash: password_hash->0@,
                    firstname: firstname@,
                    surname: surname@,
                    balance: initial_balance,
                    is_verified: false,
                    created_at: now,
                    holdings: Map::empty(),
                }),
                Err(e) => password_hash is None && e@ == AuthErrorView::PasswordHashFailed,
            },
    {
        match password_hash {
            Some(hash) => Ok(
                User {
                    id: None,
                    email,
                    password_hash: hash,
                    firstname,
                    surname,
                    balance: initial_balance,
                    is_verified: false,
                    created_at: now,
                    holdings: Holdings::new(),
                },
            ),
            None => Err(AuthError::PasswordHashFailed),
        }
    }

    /// A new, unverified user without holdings. A password of fewer than
    /// six bytes is refused as weak; otherwise the user is created unless
    /// the hash function refuses the password.
    pub fn new(
        email: String,
        password: String,
        firstname: String,
        surname: String,
        initial_balance: Money,
    ) -> (r: Result<User, AuthError>)
        ensures
            spec_password_len(password@) < MIN_PASSWORD_LEN ==> r is Err && r->Err_0@
                == AuthErrorView::WeakPassword,
            match r {
                Ok(u) => {
                    &&& spec_password_len(password@) >= MIN_PASSWORD_LEN
                    &&& u.wf()
                    &&& u@.id is None
                    &&& u@.email == email@
                    &&& u@.firstname == firstname@
                    &&& u@.surname == surname@
                    &&& u@.balance == initial_balance
                    &&& !u@.is_verified
                    &&& u@.holdings == Map::<Seq<char>, HoldingView>::empty()
                    &&& spec_kdf_verifies(password@, u@.password_hash)
                    &&& spec_is_hash_of(password@, u@.password_hash)
                },
                Err(e) => if spec_password_len(password@) < MIN_PASSWORD_LEN {
                    e@ == AuthErrorView::WeakPassword
                } else {
                    e@ == AuthErrorView::PasswordHashFailed && spec_hash_refused(password@)
                },
            },
    {
        if byte_len(password.as_str()) < MIN_PASSWORD_LEN {
            return Err(AuthError::WeakPassword);
        }
        let hash = Self::hash_password(password.as_str());
        Self::with_password_hash(email, hash, firstname, surname, initial_balance, now_micros())
    }

    /// Whether `password` is the one this user chose.
    pub fn verify_password(&self, password: &str) -> (ok: bool)
        ensures
            ok == spec_kdf_verifies(password@, self.password_hash@),
    {
        kdf_verify(password, self.password_hash.as_str())
    }

    /// Replaces the password, under the rules of [`User::new`].
    pub fn update_password(&mut self, password: &str) -> (r: Result<(), AuthError>)
        ensures
            spec_password_len(password@) < MIN_PASSWORD_LEN ==> r is Err && r->Err_0@
                == AuthErrorView::WeakPassword,
            match r {
                Ok(()) => {
                    &&& spec_password_len(password@) >= MIN_PASSWORD_LEN
                    &&& spec_kdf_verifies(password@, final(self)@.password_hash)
                    &&& spec_is_hash_of(password@, final(self)@.password_hash)
                    &&& final(self)@ == (UserView {
                        password_hash: final(self)@.password_hash,
                        ..old(self)@
                    })
                    &&& final(self).holdings == old(self).holdings
                },
                Err(e) => {
                    &&& *final(self) == *old(self)
                    &&& if spec_password_len(password@) < MIN_PASSWORD_LEN {
                        e@ == AuthErrorView::WeakPassword
                    } else {
                        e@ == AuthErrorView::PasswordHashFailed && spec_hash_refused(password@)
                    }
                },
            },
    {
        if byte_len(password) < MIN_PASSWORD_LEN {
            return Err(AuthError::WeakPassword);
        }
        match Self::hash_password(password) {
            Some(hash) => {
                self.password_hash = hash;
                Ok(())
            },
            None => Err(AuthError::PasswordHashFailed),
        }
    }

    /// The hash of `password` under a fresh salt: what the hash function
    /// gives for the password and some salt, be it a hash that accepts the
    /// password or a refusal.
    fn hash_password(password: &str) -> (r: Option<String>)
        ensures
            exists|salt: u128| #[trigger] spec_hashed_under(password@, salt, spec_optional_text(r)),
            match r {
                Some(h) => spec_is_hash_of(password@, h@) && spec_kdf_verifies(password@, h@),
                None => spec_hash_refused(password@),
            },
    {
        let salt = random_salt();
        let r = kdf_hash(password, salt);
        assert(spec_hashed_under(password@, salt, spec_optional_text(r)));
        assert(spec_kdf_hash(password@, salt) == spec_optional_text(r));
        r
    }

    /// Adds `amount` to the balance.
    pub fn deposit(&mut self, amount: Money)
        requires
            old(self).balance.units + amount.units <= u128::MAX,
        ensures
            final(self).balance.units == old(self).balance.units + amount.units,
            *final(self) == (User { balance: final(self).balance, ..*old(self) }),
    {
        self.balance = Money { units: self.balance.units + amount.units };
    }

    /// Takes `amount` from the balance, unless the balance is smaller.
    pub fn withdraw(&mut self, amount: Money) -> (r: Result<(), NotEnoughMoneyError>)
        ensures
            r is Err <==> old(self).balance.units < amount.units,
            r is Ok ==> final(self).balance.units == old(self).balance.units - amount.units,
            r is Ok ==> *final(self) == (User { balance: final(self).balance, ..*old(self) }),
            r is Err ==> *final(self) == *old(self),
    {
        if self.balance.units < amount.units {
            return Err(NotEnoughMoneyError);
        }
        self.balance = Money { units: self.balance.units - amount.units };
        Ok(())
    }

    /// The current balance.
    pub fn get_balance(&self) -> (b: Money)
        ensures
            b == self.balance,
    {
        self.balance
    }

    /// Marks the user's email address as verified.
    pub fn verify_email(&mut self)
        ensures
            final(self).is_verified,
            *final(self) == (User { is_verified: true, ..*old(self) }),
    {
        self.is_verified = true;
    }

    /// Changes the held quantity of `symbol` by `quantity_change` shares
    /// traded at `price`, at time `now`.
    pub fn update_holding_at(
        &mut self,
        symbol: &str,
        quantity_change: i64,
        price: Price,
        now: Timestamp,
    )
        requires
            old(self).wf(),
            old(self)@.holdings.contains_key(symbol@) ==> old(self)@.holdings[symbol@].quantity
                + quantity_change <= u64::MAX,
        ensures
            final(self).wf(),
            final(self)@ == (UserView {
                holdings: spec_updated_positions(
                    old(self)@.holdings,
                    symbol@,
                    quantity_change as int,
                    price,
                    now,
                ),
                ..old(self)@
            }),
            spec_positions_sound(final(self)@.holdings),
            spec_held(old(self)@.holdings, symbol@) + quantity_change <= 0
                ==> !final(self)@.holdings.contains_key(symbol@),
            quantity_change >= 1 ==> spec_bought_at_average(
                old(self)@.holdings,
                final(self)@.holdings,
                symbol@,
                quantity_change as int,
                price,
            ),
    {
        self.holdings.update_at(symbol, quantity_change, price, now);
    }

    /// Changes the held quantity of `symbol` by `quantity_change` shares
    /// traded at `price`, stamped with the current time.
    pub fn update_holding(&mut self, symbol: &str, quantity_change: i64, price: Price)
        requires
            old(self).wf(),
            old(self)@.holdings.contains_key(symbol@) ==> old(self)@.holdings[symbol@].quantity
                + quantity_change <= u64::MAX,
        ensures
            final(self).wf(),
            exists|now: Timestamp|
                final(self)@ == (UserView {
                    holdings: #[trigger] spec_updated_positions(
                        old(self)@.holdings,
                        symbol@,
                        quantity_change as int,
                        price,
                        now,
                    ),
                    ..old(self)@
                }),
            spec_positions_sound(final(self)@.holdings),
            spec_held(old(self)@.holdings, symbol@) + quantity_change <= 0
                ==> !final(self)@.holdings.contains_key(symbol@),
            quantity_change >= 1 ==> spec_bought_at_average(
                old(self)@.holdings,
                final(self)@.holdings,
                symbol@,
                quantity_change as int,
                price,
            ),
    {
        let now = now_micros();
        self.update_holding_at(symbol, quantity_change, price, now);
    }

    /// Whether the ledger can take a fill of `quantity` shares of `symbol`
    /// at `price`: a buy needs the cash, and the position it adds to must
    /// stay countable; the proceeds of a sale must fit on the balance.
    pub open spec fn spec_can_settle(
        &self,
        side: OrderSide,
        symbol: Seq<char>,
        quantity: u64,
        price: Price,
    ) -> bool {
        match side {
            OrderSide::Buy => {
                &&& self.balance.units >= spec_notional(price, quantity)
                &&& self@.holdings.contains_key(symbol) ==> self@.holdings[symbol].quantity
                    + quantity <= u64::MAX
            },
            OrderSide::Sell => self.balance.units + spec_notional(price, quantity) <= u128::MAX,
        }
    }

    /// The user after such a fill: a buy pays the notional and adds the
    /// shares, a sale receives it and gives them up.
    pub open spec fn spec_settled(
        user: UserView,
        side: OrderSide,
        symbol: Seq<char>,
        quantity: u64,
        price: Price,
        now: Timestamp,
    ) -> UserView {
        UserView {
            balance: Money {
                units: (match side {
                    OrderSide::Buy => user.balance.units - spec_notional(price, quantity),
                    OrderSide::Sell => user.balance.units + spec_notional(price, quantity),
                }) as u128,
            },
            holdings: spec_updated_positions(
                user.holdings,
                symbol,
                spec_signed(side == OrderSide::Buy, quantity),
                price,
                now,
            ),
            ..user
        }
    }

    /// Books a fill of `quantity` shares of `symbol` at `price` on the
    /// balance and the holdings, if the ledger can take it; otherwise
    /// nothing changes.
    pub fn settle(
        &mut self,
        side: OrderSide,
        symbol: &str,
        quantity: u64,
        price: Price,
        now: Timestamp,
    ) -> (ok: bool)
        requires
            old(self).wf(),
        ensures
            ok == old(self).spec_can_settle(side, symbol@, quantity, price),
            ok ==> final(self).wf() && final(self)@ == Self::spec_settled(
                old(self)@,
                side,
                symbol@,
                quantity,
                price,
                now,
            ),
            !ok ==> *final(self) == *old(self),
            spec_positions_sound(final(self)@.holdings),
    {
        proof {
            lemma_positions_sound(old(self).holdings);
        }
        let notional = price.notional(quantity);
        match side {
            OrderSide::Buy => {
                if self.balance.units < notional.units {
                    return false;
                }
                match self.holdings.get(symbol) {
                    Some(held) => {
                        if held.quantity > u64::MAX - quantity {
                            return false;
                        }
                    },
                    None => {},
                }
                self.balance = Money { units: self.balance.units - notional.units };
                self.holdings.trade(symbol, true, quantity, price, now);
                true
            },
            OrderSide::Sell => {
                if self.balance.units > u128::MAX - notional.units {
                    return false;
                }
                self.balance = Money { units: self.balance.units + notional.units };
                self.holdings.trade(symbol, false, quantity, price, now);
                true
            },
        }
    }

    /// All positions, in the order in which they were opened.
    pub fn get_holdings_list(&self) -> (r: Vec<&Holding>)
        ensures
            r@.len() == self.holdings.entries().len(),
            forall|i: int| 0 <= i < r@.len() ==> (#[trigger] r@[i])@ == self.holdings.entries()[i],
    {
        self.holdings.list()
    }

    /// The cost basis of all positions, or `None` where it does not fit in
    /// an amount.
    pub fn get_portfolio_value(&self) -> (r: Option<Money>)
        ensures
            match r {
                Some(m) => m.units == spec_cost_basis(self.holdings.entries()),
                None => spec_cost_basis(self.holdings.entries()) > u128::MAX,
            },
    {
        let n = self.holdings.len();
        let ghost all = self.holdings.entries();
        let mut total = Money::zero();
        let mut i: usize = 0;
        assert(all.subrange(0, 0) =~= Seq::<HoldingView>::empty());
        while i < n
            invariant
                n == all.len(),
                all == self.holdings.entries(),
                i <= n,
                total.units == spec_cost_basis(all.subrange(0, i as int)),
            decreases n - i,
        {
            let h = self.holdings.at(i);
            let value = h.average_cost.notional(h.quantity);
            proof {
                assert(all.subrange(0, i as int + 1).drop_last() =~= all.subrange(0, i as int));
                assert(all.subrange(0, i as int + 1).last() == all[i as int]);
            }
            match total.checked_add(value) {
                Some(sum) => {
                    total = sum;
                },
                None => {
                    proof {
                        lemma_cost_basis_grows(all, i as int + 1);
                    }
                    return None;
                },
            }
            i += 1;
        }
        assert(all.subrange(0, n as int) =~= all);
        Some(total)
    }

    /// The gain or loss against cost: zero, as positions are valued at
    /// cost.
    pub fn get_total_gain_loss(&self) -> (m: Money)
        ensures
            m.units == 0,
    {
        Money::zero()
    }

    /// The gain or loss in percent of cost: zero, as positions are valued
    /// at cost.
    pub fn get_gain_loss_percentage(&self) -> (m: Money)
        ensures
            m.units == 0,
    {
        Money::zero()
    }
}

/// The cost basis of a prefix is at most that of the whole list.
pub proof fn lemma_cost_basis_grows(entries: Seq<HoldingView>, k: int)
    requires
        0 <= k <= entries.len(),
    ensures
        spec_cost_basis(entries.subrange(0, k)) <= spec_cost_basis(entries),
    decreases entries.len() - k,
{
    if k == entries.len() {
        assert(entries.subrange(0, k) =~= entries);
    } else {
        lemma_cost_basis_grows(entries, k + 1);
        let next = entries.subrange(0, k + 1);
        assert(next.drop_last() =~= entries.subrange(0, k));
        let a = next.last().average_cost.units as int;
        let q = next.last().quantity as int;
        assert(a * q >= 0) by (nonlinear_arith)
            requires
                a >= 0,
                q >= 0,
        ;
    }
}

impl Document for User {
    /// Users can be looked up by `email`, `firstname`, `surname` and
    /// `password_hash`.
    open spec fn spec_field(&self, name: Seq<char>) -> Option<Seq<char>> {
        if name == "email"@ {
            Some(self.email@)
        } else if name == "firstname"@ {
            Some(self.firstname@)
        } else if name == "surname"@ {
            Some(self.surname@)
        } else if name == "password_hash"@ {
            Some(self.password_hash@)
        } else {
            None
        }
    }

    fn field(&self, name: &str) -> (r: Option<String>) {
        let name = String::from_str(name);
        if is_name(&name, "email") {
            Some(self.email.clone())
        } else if is_name(&name, "firstname") {
            Some(self.firstname.clone())
        } else if is_name(&name, "surname") {
            Some(self.surname.clone())
        } else if is_name(&name, "password_hash") {
            Some(self.password_hash.clone())
        } else {
            None
        }
    }
}

/// The users of the system by identifier.
pub type UserRepo = InMemoryRepo<User, UserId>;

/// Whether some stored user has the address `email`.
pub open spec fn spec_has_email(rows: Map<UserId, User>, email: Seq<char>) -> bool {
    exists|id: UserId| #[trigger] rows.contains_key(id) && rows[id]@.email == email
}

/// No two stored users share an address.
pub open spec fn spec_unique_emails(rows: Map<UserId, User>) -> bool {
    forall|a: UserId, b: UserId|
        #[trigger] rows.contains_key(a) && #[trigger] rows.contains_key(b) && rows[a]@.email
            == rows[b]@.email ==> a == b
}

/// Every stored user is well-formed: each position is of at least one
/// share.
pub open spec fn spec_users_wf(rows: Map<UserId, User>) -> bool {
    forall|id: UserId| #[trigger] rows.contains_key(id) ==> rows[id].wf()
}

/// What signing in as `user` with `password` gives: a refusal while the
/// address is unverified, then a refusal of a wrong password.
pub open spec fn spec_sign_in(user: UserView, password: Seq<char>) -> Result<bool, AuthErrorView> {
    if !user.is_verified {
        Err(
            AuthErrorView::NotVerified(
                match user.id {
                    Some(id) => id,
                    None => 0,
                },
            ),
        )
    } else if spec_kdf_verifies(password, user.password_hash) {
        Ok(true)
    } else {
        Err(AuthErrorView::InvalidPassword)
    }
}

/// Whether an outcome of signing in is the one expected.
pub open spec fn spec_sign_in_matches(
    got: Result<bool, AuthError>,
    want: Result<bool, AuthErrorView>,
) -> bool {
    match got {
        Ok(b) => want == Ok::<bool, AuthErrorView>(b),
        Err(e) => want == Err::<bool, AuthErrorView>(e@),
    }
}

/// The service's answer inside an account operation's result. An error
/// that is not the service's counts as the service being unavailable.
pub open spec fn spec_mfa_text(r: Result<String, AuthError>) -> Result<Seq<char>, MfaErrorView> {
    match r {
        Ok(id) => Ok(id@),
        Err(AuthError::MfaFailed(e)) => Err(e@),
        Err(_) => Err(MfaErrorView::ServiceUnavailable),
    }
}

/// The service's answer inside an account operation's result. An error
/// that is not the service's counts as the service being unavailable.
pub open spec fn spec_mfa_flag(r: Result<bool, AuthError>) -> Result<bool, MfaErrorView> {
    match r {
        Ok(b) => Ok(b),
        Err(AuthError::MfaFailed(e)) => Err(e@),
        Err(_) => Err(MfaErrorView::ServiceUnavailable),
    }
}

/// Whether some stored user has an identifier of the form of a fresh one,
/// which alone a fresh identifier can run into.
pub open spec fn spec_holds_fresh_id(rows: Map<UserId, User>) -> bool {
    exists|id: UserId| #[trigger] rows.contains_key(id) && id & ID_FORMAT_MASK == ID_FORMAT_RANDOM
}

/// The message of the store's refusal of an identifier that is taken.
pub open spec fn spec_duplicate_key_message() -> Seq<char> {
    "duplicate key value violates unique constraint"@
}

/// Account operations on the store of users. Each one reads, changes and
/// writes back within one call.
pub trait UserRepoExt {
    /// Registers a new, unverified user under a fresh identifier. An
    /// address that is taken is refused, then a weak password.
    fn create_user(
        &mut self,
        email: String,
        password: String,
        firstname: String,
        surname: String,
        initial_balance: Money,
    ) -> Result<UserId, AuthError>;

    /// Stores `user` under `id`, recording the identifier in the user. An
    /// address that is taken is refused, then an identifier that is taken,
    /// as a store refuses a second row under one key.
    fn register(&mut self, id: UserId, user: User) -> Result<UserId, AuthError>;

    /// Checks `password` for the user with address `email`.
    fn authenticate_user(&self, email: &str, password: &str) -> Result<bool, AuthError>;

    /// Starts the second factor for the user with address `email`: an
    /// unknown address is refused and the service left alone; otherwise the
    /// service sends a code, and its failure is passed on.
    fn initiate_mfa<P: MfaProvider>(
        &self,
        email: &str,
        mfa_service: &mut MfaService<P>,
    ) -> Result<String, AuthError>;

    /// Checks the code that the user entered; a failure of the service is
    /// passed on.
    fn complete_mfa_authentication<P: MfaProvider>(
        &self,
        challenge_id: &str,
        code: &str,
        mfa_service: &mut MfaService<P>,
    ) -> Result<bool, AuthError>;

    /// Some user with address `email`, if there is one.
    fn get_user_by_email(&self, email: &str) -> Result<Option<User>, AuthError>;

    /// The user under `user_id`, if there is one.
    fn get_user_by_id(&self, user_id: &UserId) -> Result<Option<User>, AuthError>;

    /// Whether some user has the address `email`.
    fn email_exists(&self, email: &str) -> Result<bool, AuthError>;

    /// Whether the user with address `email` is verified.
    fn is_verified(&self, email: &str) -> Result<bool, AuthError>;

    /// Adds `amount` to the balance of the user under `user_id`.
    fn deposit_to_user(&mut self, user_id: &UserId, amount: Money) -> Result<(), AuthError>;

    /// Takes `amount` from the balance of the user under `user_id`,
    /// unless the balance is smaller.
    fn withdraw_from_user(&mut self, user_id: &UserId, amount: Money) -> Result<(), AuthError>;

    /// The balance of the user under `user_id`.
    fn get_user_balance(&self, user_id: &UserId) -> Result<Money, AuthError>;

    /// Marks the address of the user under `user_id` as verified.
    fn verify_user_email(&mut self, user_id: &UserId) -> Result<(), AuthError>;

    /// Whether the user under `user_id` is verified.
    fn is_user_verified(&self, user_id: &UserId) -> Result<bool, AuthError>;
}

impl UserRepoExt for UserRepo {
    /// Registers a new, unverified user under a fresh identifier. An
    /// address that is taken is refused, then a weak password.
    fn create_user(
        &mut self,
        email: String,
        password: String,
        firstname: String,
        surname: String,
        initial_balance: Money,
    ) -> (r: Result<UserId, AuthError>)
        ensures
            spec_users_wf(old(self)@) ==> spec_users_wf(final(self)@),
            spec_unique_emails(old(self)@) ==> spec_unique_emails(final(self)@),
            spec_has_email(old(self)@, email@) ==> r is Err && r->Err_0@
                == AuthErrorView::UserAlreadyExists,
            !spec_has_email(old(self)@, email@) && spec_password_len(password@) < MIN_PASSWORD_LEN
                ==> r is Err && r->Err_0@ == AuthErrorView::WeakPassword,
            match r {
                Ok(id) => {
                    &&& !spec_has_email(old(self)@, email@)
                    &&& !old(self)@.contains_key(id)
                    &&& final(self)@.dom() == old(self)@.dom().insert(id)
                    &&& forall|other: UserId| #[trigger]
                        old(self)@.contains_key(other) ==> final(self)@[other] == old(self)@[other]
                    &&& final(self)@[id].wf()
                    &&& final(self)@[id]@.id == Some(id)
                    &&& final(self)@[id]@.email == email@
                    &&& final(self)@[id]@.firstname == firstname@
                    &&& final(self)@[id]@.surname == surname@
                    &&& final(self)@[id]@.balance == initial_balance
                    &&& !final(self)@[id]@.is_verified
                    &&& final(self)@[id]@.holdings == Map::<Seq<char>, HoldingView>::empty()
                    &&& spec_kdf_verifies(password@, final(self)@[id]@.password_hash)
                    &&& spec_is_hash_of(password@, final(self)@[id]@.password_hash)
                    &&& id & ID_FORMAT_MASK == ID_FORMAT_RANDOM
                },
                Err(e) => {
                    &&& final(self)@ == old(self)@
                    &&& if spec_has_email(old(self)@, email@) {
                        e@ == AuthErrorView::UserAlreadyExists
                    } else if spec_password_len(password@) < MIN_PASSWORD_LEN {
                        e@ == AuthErrorView::WeakPassword
                    } else {
                        ||| e@ == AuthErrorView::PasswordHashFailed && spec_hash_refused(password@)
                        ||| e@ == AuthErrorView::UserRepo(
                            DbErrorView::SqlxError(spec_duplicate_key_message()),
                        ) && spec_holds_fresh_id(old(self)@)
                    }
                },
            },
    {
        if self.find_by_field("email", email.as_str()).is_some() {
            return Err(AuthError::UserAlreadyExists);
        }
        assert(!spec_has_email(self@, email@));
        let user = match User::new(email, password, firstname, surname, initial_balance) {
            Ok(user) => user,
            Err(e) => {
                return Err(e);
            },
        };
        let id = fresh_id();
        let r = self.register(id, user);
        proof {
            if r is Err {
                assert(old(self)@.contains_key(id));
            }
        }
        r
    }

    /// Stores `user` under `id`, recording the identifier in the user. An
    /// address that is taken is refused, then an identifier that is taken,
    /// as a store refuses a second row under one key.
    fn register(&mut self, id: UserId, user: User) -> (r: Result<UserId, AuthError>)
        ensures
            spec_users_wf(old(self)@) && user.wf() ==> spec_users_wf(final(self)@),
            spec_unique_emails(old(self)@) ==> spec_unique_emails(final(self)@),
            match r {
                Ok(got) => {
                    &&& got == id
                    &&& !spec_has_email(old(self)@, user@.email)
                    &&& !old(self)@.contains_key(id)
                    &&& final(self)@ == old(self)@.insert(id, User { id: Some(id), ..user })
                },
                Err(e) => {
                    &&& final(self)@ == old(self)@
                    &&& if spec_has_email(old(self)@, user@.email) {
                        e@ == AuthErrorView::UserAlreadyExists
                    } else {
                        old(self)@.contains_key(id) && e@ == AuthErrorView::UserRepo(
                            DbErrorView::SqlxError(spec_duplicate_key_message()),
                        )
                    }
                },
            },
    {
        if self.find_by_field("email", user.email.as_str()).is_some() {
            return Err(AuthError::UserAlreadyExists);
        }
        assert(!spec_has_email(self@, user@.email));
        if self.get(&id).is_some() {
            return Err(
                AuthError::UserRepo(
                    DbError::SqlxError(
                        String::from_str("duplicate key value violates unique constraint"),
                    ),
                ),
            );
        }
        let mut user = user;
        user.id = Some(id);
        self.insert(id, user);
        Ok(id)
    }

    /// Checks `password` for the user with address `email`.
    fn authenticate_user(&self, email: &str, password: &str) -> (r: Result<bool, AuthError>)
        ensures
            !spec_has_email(self@, email@) ==> r is Err && r->Err_0@ == AuthErrorView::UserNotFound,
            spec_has_email(self@, email@) ==> exists|id: UserId|
                #[trigger] self@.contains_key(id) && self@[id]@.email == email@
                    && spec_sign_in_matches(r, spec_sign_in(self@[id]@, password@)),
    {
        match self.find_by_field("email", email) {
            Some(user) => {
                if !user.is_verified {
                    let id = match user.id {
                        Some(id) => id,
                        None => 0,
                    };
                    return Err(AuthError::NotVerified(id));
                }
                if user.verify_password(password) {
                    Ok(true)
                } else {
                    Err(AuthError::InvalidPassword)
                }
            },
            None => Err(AuthError::UserNotFound),
        }
    }

    /// Starts the second factor for the user with address `email`: an
    /// unknown address is refused and the service left alone; otherwise the
    /// service sends a code, and its failure is passed on.
    fn initiate_mfa<P: MfaProvider>(
        &self,
        email: &str,
        mfa_service: &mut MfaService<P>,
    ) -> (r: Result<String, AuthError>)
        ensures
            !spec_has_email(self@, email@) ==> r is Err && r->Err_0@ == AuthErrorView::UserNotFound
                && final(mfa_service).spec_provider() == old(mfa_service).spec_provider(),
            spec_has_email(self@, email@) ==> old(mfa_service).spec_provider().spec_sent(
                &final(mfa_service).spec_provider(),
                email@,
                spec_mfa_text(r),
            ) && !(r matches Err(e) && !(e is MfaFailed)),
    {
        match self.find_by_field("email", email) {
            Some(user) => {
                match mfa_service.initiate_mfa(user.email.as_str()) {
                    Ok(id) => Ok(id),
                    Err(e) => Err(AuthError::MfaFailed(e)),
                }
            },
            None => Err(AuthError::UserNotFound),
        }
    }

    /// Checks the code that the user entered; a failure of the service is
    /// passed on.
    fn complete_mfa_authentication<P: MfaProvider>(
        &self,
        challenge_id: &str,
        code: &str,
        mfa_service: &mut MfaService<P>,
    ) -> (r: Result<bool, AuthError>)
        ensures
            !(r matches Err(e) && !(e is MfaFailed)),
            exists|now: Timestamp| #[trigger]
                old(mfa_service).spec_provider().spec_verified(
                    &final(mfa_service).spec_provider(),
                    challenge_id@,
                    code@,
                    now,
                    spec_mfa_flag(r),
                ),
    {
        let ghost before = mfa_service.spec_provider();
        let inner = mfa_service.verify_mfa(challenge_id, code);
        proof {
            let now = choose|now: Timestamp| #[trigger]
                before.spec_verified(
                    &mfa_service.spec_provider(),
                    challenge_id@,
                    code@,
                    now,
                    spec_flag_result(inner),
                );
        }
        match inner {
            Ok(b) => Ok(b),
            Err(e) => Err(AuthError::MfaFailed(e)),
        }
    }

    /// Some user with address `email`, if there is one.
    fn get_user_by_email(&self, email: &str) -> (r: Result<Option<User>, AuthError>)
        ensures
            match r {
                Ok(Some(user)) => exists|id: UserId|
                    #[trigger] self@.contains_key(id) && self@[id]@ == user@ && user@.email
                        == email@ && (self@[id].wf() ==> user.wf()),
                Ok(None) => !spec_has_email(self@, email@),
                Err(_) => false,
            },
    {
        match self.find_by_field("email", email) {
            Some(user) => Ok(Some(user.clone())),
            None => Ok(None),
        }
    }

    /// The user under `user_id`, if there is one.
    fn get_user_by_id(&self, user_id: &UserId) -> (r: Result<Option<User>, AuthError>)
        ensures
            match r {
                Ok(Some(user)) => self@.contains_key(*user_id) && self@[*user_id]@ == user@ && (
                self@[*user_id].wf() ==> user.wf()),
                Ok(None) => !self@.contains_key(*user_id),
                Err(_) => false,
            },
    {
        match self.get(user_id) {
            Some(user) => Ok(Some(user.clone())),
            None => Ok(None),
        }
    }

    /// Whether some user has the address `email`.
    fn email_exists(&self, email: &str) -> (r: Result<bool, AuthError>)
        ensures
            r is Ok,
            r->Ok_0 == spec_has_email(self@, email@),
    {
        Ok(self.find_by_field("email", email).is_some())
    }

    /// Whether the user with address `email` is verified.
    fn is_verified(&self, email: &str) -> (r: Result<bool, AuthError>)
        ensures
            match r {
                Ok(b) => exists|id: UserId|
                    #[trigger] self@.contains_key(id) && self@[id]@.email == email@
                        && self@[id]@.is_verified == b,
                Err(e) => !spec_has_email(self@, email@) && e@ == AuthErrorView::UserNotFound,
            },
    {
        match self.find_by_field("email", email) {
            Some(user) => Ok(user.is_verified),
            None => Err(AuthError::UserNotFound),
        }
    }

    /// Adds `amount` to the balance of the user under `user_id`.
    fn deposit_to_user(&mut self, user_id: &UserId, amount: Money) -> (r: Result<(), AuthError>)
        ensures
            spec_users_wf(old(self)@) ==> spec_users_wf(final(self)@),
            spec_unique_emails(old(self)@) ==> spec_unique_emails(final(self)@),
            match r {
                Ok(()) => {
                    &&& old(self)@.contains_key(*user_id)
                    &&& old(self)@[*user_id].balance.units + amount.units <= u128::MAX
                    &&& final(self)@ == old(self)@.insert(
                        *user_id,
                        User {
                            balance: Money {
                                units: (old(self)@[*user_id].balance.units + amount.units) as u128,
                            },
                            ..old(self)@[*user_id]
                        },
                    )
                },
                Err(e) => {
                    &&& final(self)@ == old(self)@
                    &&& if !old(self)@.contains_key(*user_id) {
                        e@ == AuthErrorView::UserNotFound
                    } else {
                        old(self)@[*user_id].balance.units + amount.units > u128::MAX && e@
                            == AuthErrorView::BalanceOverflow
                    }
                },
            },
    {
        match self.remove(user_id) {
            Some(user) => {
                let mut user = user;
                if user.balance.units > u128::MAX - amount.units {
                    self.insert(*user_id, user);
                    assert(self@ =~= old(self)@);
                    return Err(AuthError::BalanceOverflow);
                }
                user.deposit(amount);
                self.insert(*user_id, user);
                assert(self@ =~= old(self)@.insert(*user_id, user));
                Ok(())
            },
            None => {
                assert(self@ =~= old(self)@);
                Err(AuthError::UserNotFound)
            },
        }
    }

    /// Takes `amount` from the balance of the user under `user_id`,
    /// unless the balance is smaller.
    fn withdraw_from_user(&mut self, user_id: &UserId, amount: Money) -> (r: Result<
        (),
        AuthError,
    >)
        ensures
            spec_users_wf(old(self)@) ==> spec_users_wf(final(self)@),
            spec_unique_emails(old(self)@) ==> spec_unique_emails(final(self)@),
            match r {
                Ok(()) => {
                    &&& old(self)@.contains_key(*user_id)
                    &&& old(self)@[*user_id].balance.units >= amount.units
                    &&& final(self)@ == old(self)@.insert(
                        *user_id,
                        User {
                            balance: Money {
                                units: (old(self)@[*user_id].balance.units - amount.units) as u128,
                            },
                            ..old(self)@[*user_id]
                        },
                    )
                },
                Err(e) => {
                    &&& final(self)@ == old(self)@
                    &&& if !old(self)@.contains_key(*user_id) {
                        e@ == AuthErrorView::UserNotFound
                    } else {
                        old(self)@[*user_id].balance.units < amount.units && e@
                            == AuthErrorView::NotEnoughMoneyError
                    }
                },
            },
    {
        match self.remove(user_id) {
            Some(user) => {
                let mut user = user;
                match user.withdraw(amount) {
                    Ok(()) => {
                        self.insert(*user_id, user);
                        assert(self@ =~= old(self)@.insert(*user_id, user));
                        Ok(())
                    },
                    Err(_) => {
                        self.insert(*user_id, user);
                        assert(self@ =~= old(self)@);
                        Err(AuthError::NotEnoughMoneyError)
                    },
                }
            },
            None => {
                assert(self@ =~= old(self)@);
                Err(AuthError::UserNotFound)
            },
        }
    }

    /// The balance of the user under `user_id`.
    fn get_user_balance(&self, user_id: &UserId) -> (r: Result<Money, AuthError>)
        ensures
            match r {
                Ok(b) => self@.contains_key(*user_id) && b == self@[*user_id].balance,
                Err(e) => !self@.contains_key(*user_id) && e@ == AuthErrorView::UserNotFound,
            },
    {
        match self.get(user_id) {
            Some(user) => Ok(user.get_balance()),
            None => Err(AuthError::UserNotFound),
        }
    }

    /// Marks the address of the user under `user_id` as verified.
    fn verify_user_email(&mut self, user_id: &UserId) -> (r: Result<(), AuthError>)
        ensures
            spec_users_wf(old(self)@) ==> spec_users_wf(final(self)@),
            spec_unique_emails(old(self)@) ==> spec_unique_emails(final(self)@),
            match r {
                Ok(()) => old(self)@.contains_key(*user_id) && final(self)@ == old(self)@.insert(
                    *user_id,
                    User { is_verified: true, ..old(self)@[*user_id] },
                ),
                Err(e) => !old(self)@.contains_key(*user_id) && final(self)@ == old(self)@ && e@
                    == AuthErrorView::UserNotFound,
            },
    {
        match self.remove(user_id) {
            Some(user) => {
                let mut user = user;
                user.verify_email();
                self.insert(*user_id, user);
                assert(self@ =~= old(self)@.insert(*user_id, user));
                Ok(())
            },
            None => {
                assert(self@ =~= old(self)@);
                Err(AuthError::UserNotFound)
            },
        }
    }

    /// Whether the user under `user_id` is verified.
    fn is_user_verified(&self, user_id: &UserId) -> (r: Result<bool, AuthError>)
        ensures
            match r {
                Ok(b) => self@.contains_key(*user_id) && b == self@[*user_id].is_verified,
                Err(e) => !self@.contains_key(*user_id) && e@ == AuthErrorView::UserNotFound,
            },
    {
        match self.get(user_id) {
            Some(user) => Ok(user.is_verified),
            None => Err(AuthError::UserNotFound),
        }
    }
}

} // verus!
