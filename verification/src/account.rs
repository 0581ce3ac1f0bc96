//! Plain cash accounts, kept in a store in memory.

use crate::in_memory::{spec_lists_rows, InMemoryRepo};
use crate::money::Money;
use crate::pre_trade::same_text;
use crate::sys::{
    fresh_id, kdf_hash, kdf_verify, random_salt, spec_kdf_hash, spec_kdf_verifies, ID_FORMAT_MASK,
    ID_FORMAT_RANDOM,
};
use vstd::prelude::*;
use vstd::string::StringExecFns;

verus! {

broadcast use vstd::std_specs::hash::group_hash_axioms;

/// A cash account with the credentials of its holder.
#[derive(Debug)]
pub struct Account {
    pub firstname: String,
    pub surname: String,
    pub email: String,
    password_hash: String,
    balance: Money,
}

/// The hash that an account keeps for the outcome of hashing: the hash,
/// or no text where the hash function refused.
pub open spec fn spec_kept_hash(hashed: Option<Seq<char>>) -> Seq<char> {
    match hashed {
        Some(h) => h,
        None => Seq::empty(),
    }
}

/// Whether `hash` is what an account keeps for `password` under some salt.
pub open spec fn spec_account_hashed(password: Seq<char>, hash: Seq<char>) -> bool {
    exists|salt: u128| hash == spec_kept_hash(#[trigger] spec_kdf_hash(password, salt))
}

/// A withdrawal asked for more than the balance.
#[derive(Debug, Clone, Copy, PartialEq, Eq, Structural)]
pub struct NotEnoughMoneyError;

impl Account {
    /// The balance.
    pub closed spec fn spec_balance(&self) -> Money {
        self.balance
    }

    /// The stored hash of the password.
    pub closed spec fn spec_password_hash(&self) -> Seq<char> {
        self.password_hash@
    }

    /// The address of the holder.
    pub closed spec fn spec_email(&self) -> Seq<char> {
        self.email@
    }

    /// The names of the holder.
    pub closed spec fn spec_names(&self) -> (Seq<char>, Seq<char>) {
        (self.firstname@, self.surname@)
    }

    /// An account for the holder, given the outcome of hashing the
    /// password. Without a hash the account accepts no password.
    pub fn with_password_hash(
        email: String,
        firstname: String,
        surname: String,
        password_hash: Option<String>,
        balance: Money,
    ) -> (a: Self)
        ensures
            a.spec_email() == email@,
            a.spec_names() == (firstname@, surname@),
            a.spec_balance() == balance,
            a.spec_password_hash() == (match password_hash {
                Some(h) => h@,
                None => Seq::<char>::empty(),
            }),
    {
        let password_hash = match password_hash {
            Some(h) => h,
            None => String::new(),
        };
        Self { email, surname, firstname, password_hash, balance }
    }

    /// An account for the holder with the given password and balance.
    pub fn new(
        email: String,
        firstname: String,
        surname: String,
        password: String,
        balance: Money,
    ) -> (a: Self)
        ensures
            a.spec_email() == email@,
            a.spec_names() == (firstname@, surname@),
            a.spec_balance() == balance,
            a.spec_password_hash().len() == 0 || spec_kdf_verifies(
                password@,
                a.spec_password_hash(),
            ),
            spec_account_hashed(password@, a.spec_password_hash()),
    {
        let salt = random_salt();
        let hash = kdf_hash(password.as_str(), salt);
        let a = Self::with_password_hash(email, firstname, surname, hash, balance);
        assert(a.spec_password_hash() == spec_kept_hash(spec_kdf_hash(password@, salt)));
        a
    }

    /// Whether `password` is the holder's.
    pub fn verify_password(&self, password: &str) -> (ok: bool)
        ensures
            ok == spec_kdf_verifies(password@, self.spec_password_hash()),
    {
        kdf_verify(password, self.password_hash.as_str())
    }

    /// The balance.
    pub fn balance(&self) -> (b: Money)
        ensures
            b == self.spec_balance(),
    {
        self.balance
    }

    /// Adds `amount` to the balance.
    pub fn deposit(&mut self, amount: Money)
        requires
            old(self).spec_balance().units + amount.units <= u128::MAX,
        ensures
            final(self).spec_balance().units == old(self).spec_balance().units + amount.units,
            final(self).spec_email() == old(self).spec_email(),
            final(self).spec_names() == old(self).spec_names(),
            final(self).spec_password_hash() == old(self).spec_password_hash(),
    {
        self.balance = Money { units: self.balance.units + amount.units };
    }

    /// Takes `amount` from the balance, unless the balance is smaller.
    pub fn withdraw(&mut self, amount: Money) -> (r: Result<(), NotEnoughMoneyError>)
        ensures
            r is Err <==> old(self).spec_balance().units < amount.units,
            r is Err ==> *final(self) == *old(self),
            r is Ok ==> final(self).spec_balance().units == old(self).spec_balance().units
                - amount.units,
            r is Err ==> final(self).spec_balance() == old(self).spec_balance(),
            final(self).spec_email() == old(self).spec_email(),
            final(self).spec_names() == old(self).spec_names(),
            final(self).spec_password_hash() == old(self).spec_password_hash(),
    {
        if self.balance.units < amount.units {
            return Err(NotEnoughMoneyError);
        }
        self.balance = Money { units: self.balance.units - amount.units };
        Ok(())
    }
}

/// Identifies an account: an opaque 128-bit value.
pub type AccountId = u128;

/// The accounts by identifier.
pub type AccountRepo = InMemoryRepo<Account, AccountId>;

/// Whether `rows` holds an account of address `email`.
pub open spec fn spec_account_exists(rows: Map<AccountId, Account>, email: Seq<char>) -> bool {
    exists|id: AccountId| #[trigger] rows.contains_key(id) && rows[id].spec_email() == email
}

/// Whether the account under `id` has the address `email` and accepts
/// `password`.
pub open spec fn spec_signs_in(
    rows: Map<AccountId, Account>,
    id: AccountId,
    email: Seq<char>,
    password: Seq<char>,
) -> bool {
    rows.contains_key(id) && rows[id].spec_email() == email && spec_kdf_verifies(
        password,
        rows[id].spec_password_hash(),
    )
}

/// Whether `after` is `before` with the balance of the account under `id`
/// set to `balance` and nothing else changed.
pub open spec fn spec_balance_set(
    before: Map<AccountId, Account>,
    after: Map<AccountId, Account>,
    id: AccountId,
    balance: int,
) -> bool {
    &&& before.contains_key(id)
    &&& after.dom() == before.dom()
    &&& after[id].spec_balance().units == balance
    &&& after[id].spec_email() == before[id].spec_email()
    &&& after[id].spec_names() == before[id].spec_names()
    &&& after[id].spec_password_hash() == before[id].spec_password_hash()
    &&& forall|other: AccountId|
        other != id && #[trigger] before.contains_key(other) ==> after[other] == before[other]
}

/// Account operations on the store of accounts.
pub trait AccountRepoExt {
    /// Opens an account under a fresh identifier. It takes the place of
    /// an account that the identifier may already name.
    fn create_account(
        &mut self,
        firstname: String,
        surname: String,
        email: String,
        password: String,
        initial_balance: Money,
    ) -> AccountId;

    /// The identifier of an account of address `email` that accepts
    /// `password`, if there is one.
    fn authenticate(&self, username: &str, password: &str) -> Option<AccountId>;

    /// The identifier of an account of address `email`, if there is one.
    fn get_account_id_by_email(&self, email: &str) -> Option<AccountId>;

    /// Whether there is an account of address `email`.
    fn email_exists(&self, username: &str) -> bool;

    /// Adds `amount` to the balance of the account under `account_id`.
    fn deposit_to_account(&mut self, account_id: &AccountId, amount: Money) -> Result<
        (),
        &'static str,
    >;

    /// Takes `amount` from the balance of the account under `account_id`,
    /// unless the balance is smaller.
    fn withdraw_from_account(&mut self, account_id: &AccountId, amount: Money) -> Result<
        (),
        &'static str,
    >;

    /// The balance of the account under `account_id`.
    fn get_balance(&self, account_id: &AccountId) -> Option<Money>;
}

impl AccountRepoExt for AccountRepo {
    /// Opens an account under a fresh identifier. It takes the place of
    /// an account that the identifier may already name.
    fn create_account(
        &mut self,
        firstname: String,
        surname: String,
        email: String,
        password: String,
        initial_balance: Money,
    ) -> (id: AccountId)
        ensures
            final(self)@.dom() == old(self)@.dom().insert(id),
            forall|other: AccountId|
                other != id && #[trigger] old(self)@.contains_key(other) ==> final(self)@[other]
                    == old(self)@[other],
            final(self)@[id].spec_email() == email@,
            final(self)@[id].spec_names() == (firstname@, surname@),
            final(self)@[id].spec_balance() == initial_balance,
            final(self)@[id].spec_password_hash().len() == 0 || spec_kdf_verifies(
                password@,
                final(self)@[id].spec_password_hash(),
            ),
            spec_account_hashed(password@, final(self)@[id].spec_password_hash()),
            id & ID_FORMAT_MASK == ID_FORMAT_RANDOM,
    {
        let id = fresh_id();
        let account = Account::new(email, firstname, surname, password, initial_balance);
        self.insert(id, account);
        id
    }

    /// The identifier of an account of address `email` that accepts
    /// `password`, if there is one.
    fn authenticate(&self, email: &str, password: &str) -> (r: Option<AccountId>)
        ensures
            match r {
                Some(id) => spec_signs_in(self@, id, email@, password@),
                None => forall|id: AccountId| !spec_signs_in(self@, id, email@, password@),
            },
    {
        let wanted = String::from_str(email);
        let all = self.iter();
        let mut i: usize = 0;
        while i < all.len()
            invariant
                i <= all@.len(),
                wanted@ == email@,
                spec_lists_rows(all@, self@),
                forall|j: int|
                    0 <= j < i ==> !spec_signs_in(
                        self@,
                        *(#[trigger] all@[j]).0,
                        email@,
                        password@,
                    ),
            decreases all.len() - i,
        {
            let account: &Account = all[i].1;
            assert(self@.contains_key(*all@[i as int].0) && self@[*all@[i as int].0] == *account);
            if same_text(&account.email, &wanted) && account.verify_password(password) {
                return Some(*all[i].0);
            }
            i += 1;
        }
        assert forall|id: AccountId| !spec_signs_in(self@, id, email@, password@) by {
            if self@.contains_key(id) {
                let k = choose|k: int| 0 <= k < all@.len() && *(#[trigger] all@[k]).0 == id;
                assert(!spec_signs_in(self@, *all@[k].0, email@, password@));
            }
        }
        None
    }

    /// The identifier of an account of address `email`, if there is one.
    fn get_account_id_by_email(&self, email: &str) -> (r: Option<AccountId>)
        ensures
            match r {
                Some(id) => self@.contains_key(id) && self@[id].spec_email() == email@,
                None => !spec_account_exists(self@, email@),
            },
    {
        let wanted = String::from_str(email);
        let all = self.iter();
        let mut i: usize = 0;
        while i < all.len()
            invariant
                i <= all@.len(),
                wanted@ == email@,
                spec_lists_rows(all@, self@),
                forall|j: int| 0 <= j < i ==> (*(#[trigger] all@[j]).1).spec_email() != email@,
            decreases all.len() - i,
        {
            let account: &Account = all[i].1;
            assert(self@.contains_key(*all@[i as int].0) && self@[*all@[i as int].0] == *account);
            if same_text(&account.email, &wanted) {
                return Some(*all[i].0);
            }
            i += 1;
        }
        assert forall|id: AccountId| #[trigger]
            self@.contains_key(id) implies self@[id].spec_email() != email@ by {
            let k = choose|k: int| 0 <= k < all@.len() && *(#[trigger] all@[k]).0 == id;
            assert(self@[*all@[k].0] == *all@[k].1);
        }
        None
    }

    /// Whether there is an account of address `email`.
    fn email_exists(&self, email: &str) -> (r: bool)
        ensures
            r == spec_account_exists(self@, email@),
    {
        self.get_account_id_by_email(email).is_some()
    }

    /// Adds `amount` to the balance of the account under `account_id`.
    fn deposit_to_account(&mut self, account_id: &AccountId, amount: Money) -> (r: Result<
        (),
        &'static str,
    >)
        ensures
            match r {
                Ok(()) => spec_balance_set(
                    old(self)@,
                    final(self)@,
                    *account_id,
                    old(self)@[*account_id].spec_balance().units + amount.units,
                ),
                Err(e) => {
                    &&& final(self)@ == old(self)@
                    &&& if !old(self)@.contains_key(*account_id) {
                        e@ == "Account not found"@
                    } else {
                        old(self)@[*account_id].spec_balance().units + amount.units > u128::MAX
                            && e@ == "Balance out of range"@
                    }
                },
            },
    {
        match self.get_mut(account_id) {
            Some(account) => {
                if account.balance.units > u128::MAX - amount.units {
                    assert(*final(account) == *account);
                    assert(self@ =~= old(self)@);
                    Err("Balance out of range")
                } else {
                    account.deposit(amount);
                    assert(self@.dom() =~= old(self)@.dom());
                    Ok(())
                }
            },
            None => Err("Account not found"),
        }
    }

    /// Takes `amount` from the balance of the account under `account_id`,
    /// unless the balance is smaller.
    fn withdraw_from_account(&mut self, account_id: &AccountId, amount: Money) -> (r: Result<
        (),
        &'static str,
    >)
        ensures
            match r {
                Ok(()) => old(self)@[*account_id].spec_balance().units >= amount.units
                    && spec_balance_set(
                    old(self)@,
                    final(self)@,
                    *account_id,
                    old(self)@[*account_id].spec_balance().units - amount.units,
                ),
                Err(e) => {
                    &&& final(self)@ == old(self)@
                    &&& if !old(self)@.contains_key(*account_id) {
                        e@ == "Account not found"@
                    } else {
                        old(self)@[*account_id].spec_balance().units < amount.units && e@
                            == "Insufficient funds"@
                    }
                },
            },
    {
        match self.get_mut(account_id) {
            Some(account) => {
                match account.withdraw(amount) {
                    Ok(()) => {
                        assert(self@.dom() =~= old(self)@.dom());
                        Ok(())
                    },
                    Err(_) => {
                        assert(self@ =~= old(self)@);
                        Err("Insufficient funds")
                    },
                }
            },
            None => Err("Account not found"),
        }
    }

    /// The balance of the account under `account_id`.
    fn get_balance(&self, account_id: &AccountId) -> (r: Option<Money>)
        ensures
            match r {
                Some(b) => self@.contains_key(*account_id) && b
                    == self@[*account_id].spec_balance(),
                None => !self@.contains_key(*account_id),
            },
    {
        match self.get(account_id) {
            Some(account) => Some(account.balance),
            None => None,
        }
    }
}

} // verus!
