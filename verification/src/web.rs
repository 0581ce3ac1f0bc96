//! What the web pages decide: how a session travels in a cookie, what the
//! forms accept, and what is shown or where the browser is sent in reply.

use crate::broker::BrokerX;
use crate::mfa::{MfaError, MfaErrorView};
use crate::money::{Money, Price};
use crate::order::{OrderSide, OrderType, Timestamp};
use crate::pre_trade::{same_text, PreTradeError};
use crate::sys::{id_text, now_micros, parse_id, spec_id_text, spec_parse_id};
use crate::text::{
    chars_of, chars_to_string, parse_decimal, parse_u64, push_decimal, push_str, spec_decimal,
    spec_parse_decimal, spec_parse_u64, spec_position, spec_strip_prefix, spec_trim, strip_prefix,
    text_of, trim_bounds,
};
use crate::user::{
    byte_len, spec_password_len, AuthError, AuthErrorView, User, UserId, UserRepoExt,
    MIN_PASSWORD_LEN,
};
use vstd::prelude::*;
use vstd::string::StringExecFns;

verus! {

/// How long a session lasts, in seconds: a day.
pub const SESSION_SECONDS: i64 = 86_400;

/// The initial balance of a user who registers through the web pages:
/// 1000.00.
pub const WELCOME_BALANCE_UNITS: u128 = 10_000_000;

/// The whole seconds of a time in microseconds, rounded down.
pub open spec fn spec_seconds(micros: Timestamp) -> int {
    micros as int / 1_000_000
}

/// What a session token states.
#[derive(Debug)]
pub struct Claims {
    /// The user's identifier, as text.
    pub sub: String,
    /// The user's address.
    pub email: String,
    /// When the session ends, in seconds since the Unix epoch.
    pub exp: i64,
    /// When the session began, in seconds since the Unix epoch.
    pub iat: i64,
}

impl Clone for Claims {
    fn clone(&self) -> (r: Self)
        ensures
            r == *self,
    {
        Claims { sub: self.sub.clone(), email: self.email.clone(), exp: self.exp, iat: self.iat }
    }
}

impl Claims {
    /// Claims for a session of `user_id` that begins at `now_secs` and
    /// lasts a day.
    pub fn new_at(user_id: UserId, username: String, now_secs: i64) -> (c: Self)
        requires
            now_secs + SESSION_SECONDS <= i64::MAX,
        ensures
            c.sub@ == spec_id_text(user_id),
            c.email == username,
            c.iat == now_secs,
            c.exp == now_secs + SESSION_SECONDS,
    {
        Claims {
            sub: id_text(user_id),
            email: username,
            exp: now_secs + SESSION_SECONDS,
            iat: now_secs,
        }
    }

    /// Claims for a session of `user_id` that begins now, at the whole
    /// second that the clock reads, and lasts a day. No time of the clock is
    /// within a day of the last second that can be written.
    pub fn new(user_id: UserId, username: String) -> (c: Self)
        ensures
            c.sub@ == spec_id_text(user_id),
            c.email == username,
            c.exp == c.iat + SESSION_SECONDS,
            exists|micros: Timestamp| c.iat == #[trigger] spec_seconds(micros),
    {
        let micros = now_micros();
        let now_secs: i64 = if micros >= 0 {
            micros / 1_000_000
        } else {
            -((-(micros + 1)) / 1_000_000) - 1
        };
        assert(now_secs == spec_seconds(micros));
        Self::new_at(user_id, username, now_secs)
    }
}

/// The user of a session: the stored user that the claims name, if their
/// subject reads as an identifier and a user is stored under it. Without
/// one the browser is sent to sign in.
pub fn signed_in_user(broker: &BrokerX, claims: &Claims) -> (r: Option<User>)
    ensures
        match r {
            Some(user) => spec_parse_id(claims.sub@) matches Some(id)
                && broker.state().users.contains_key(id) && user@ == broker.state().users[id]@,
            None => !(spec_parse_id(claims.sub@) matches Some(id)
                && broker.state().users.contains_key(id)),
        },
{
    let id = match parse_id(claims.sub.as_str()) {
        Some(id) => id,
        None => {
            return None;
        },
    };
    match broker.get_user_repo().get_user_by_id(&id) {
        Ok(Some(user)) => Some(user),
        _ => None,
    }
}

/// Where the browser is sent to sign in.
pub fn login_path() -> (s: String)
    ensures
        s@ == "/login"@,
{
    String::from_str("/login")
}

/// The cookie that carries a session token.
pub open spec fn spec_auth_cookie(token: Seq<char>) -> Seq<char> {
    "token="@ + token + "; HttpOnly; Secure; SameSite=Strict; Max-Age="@ + spec_decimal(
        SESSION_SECONDS as nat,
    ) + "; Path=/"@
}

/// The cookie that carries the session token `token`, valid for a day.
pub fn create_auth_cookie(token: &str) -> (s: String)
    ensures
        s@ == spec_auth_cookie(token@),
{
    let mut out: Vec<char> = Vec::new();
    push_str("token=", &mut out);
    push_str(token, &mut out);
    push_str("; HttpOnly; Secure; SameSite=Strict; Max-Age=", &mut out);
    push_decimal(SESSION_SECONDS as u128, &mut out);
    push_str("; Path=/", &mut out);
    assert(out@ =~= spec_auth_cookie(token@));
    chars_to_string(&out)
}

/// The cookie that ends a session.
pub fn create_logout_cookie() -> (s: String)
    ensures
        s@ == "token=; HttpOnly; Secure; SameSite=Strict; Max-Age=0; Path=/"@,
{
    String::from_str("token=; HttpOnly; Secure; SameSite=Strict; Max-Age=0; Path=/")
}

/// The token in a `Cookie` header: the value of the first cookie, in the
/// order of the header, whose text without surrounding white space starts
/// with `token=`.
pub open spec fn spec_cookie_token(header: Seq<char>) -> Option<Seq<char>>
    decreases header.len(),
{
    let end = spec_position(header, ';');
    if end < 0 || end > header.len() {
        None
    } else {
        match spec_strip_prefix(spec_trim(header.subrange(0, end)), "token="@) {
            Some(token) => Some(token),
            None => {
                if end >= header.len() {
                    None
                } else {
                    spec_cookie_token(header.subrange(end + 1, header.len() as int))
                }
            },
        }
    }
}

/// The token of a request: the bearer token of the `Authorization`
/// header where there is one, else the token of the `Cookie` header.
pub open spec fn spec_extract_token(
    authorization: Option<Seq<char>>,
    cookie: Option<Seq<char>>,
) -> Option<Seq<char>> {
    let bearer = match authorization {
        Some(a) => spec_strip_prefix(a, "Bearer "@),
        None => None,
    };
    if bearer is Some {
        bearer
    } else {
        match cookie {
            Some(c) => spec_cookie_token(c),
            None => None,
        }
    }
}

/// The token in a `Cookie` header.
pub fn cookie_token(header: &str) -> (r: Option<String>)
    ensures
        match r {
            Some(t) => spec_cookie_token(header@) == Some(t@),
            None => spec_cookie_token(header@) is None,
        },
{
    let chars = chars_of(header);
    let name = chars_of("token=");
    let n = chars.len();
    let mut start: usize = 0;
    assert(chars@.subrange(0, n as int) =~= header@);
    loop
        invariant
            start <= n,
            n == chars@.len(),
            chars@ == header@,
            name@ == "token="@,
            spec_cookie_token(header@) == spec_cookie_token(
                chars@.subrange(start as int, n as int),
            ),
        decreases n - start,
    {
        let ghost rest = chars@.subrange(start as int, n as int);
        let mut end: usize = start;
        while end < n && chars[end] != ';'
            invariant
                start <= end <= n,
                n == chars@.len(),
                forall|j: int| start <= j < end ==> chars@[j] != ';',
            decreases n - end,
        {
            end += 1;
        }
        proof {
            crate::text::lemma_position_is(rest, ';', end - start);
            assert(rest.subrange(0, end - start) =~= chars@.subrange(start as int, end as int));
        }
        let (a, b) = trim_bounds(&chars, start, end);
        match strip_prefix(&chars, a, b, &name) {
            Some(value) => {
                return Some(text_of(&chars, value, b));
            },
            None => {},
        }
        if end >= n {
            return None;
        }
        proof {
            assert(rest.subrange(end - start + 1, rest.len() as int) =~= chars@.subrange(
                end as int + 1,
                n as int,
            ));
        }
        start = end + 1;
    }
}

/// The token of a request, from its `Authorization` and `Cookie`
/// headers.
pub fn extract_token(authorization: Option<&str>, cookie: Option<&str>) -> (r: Option<String>)
    ensures
        match r {
            Some(t) => spec_extract_token(
                match authorization {
                    Some(a) => Some(a@),
                    None => None,
                },
                match cookie {
                    Some(c) => Some(c@),
                    None => None,
                },
            ) == Some(t@),
            None => spec_extract_token(
                match authorization {
                    Some(a) => Some(a@),
                    None => None,
                },
                match cookie {
                    Some(c) => Some(c@),
                    None => None,
                },
            ) is None,
        },
{
    match authorization {
        Some(a) => {
            let chars = chars_of(a);
            let scheme = chars_of("Bearer ");
            assert(chars@.subrange(0, chars@.len() as int) =~= a@);
            match strip_prefix(&chars, 0, chars.len(), &scheme) {
                Some(rest) => {
                    return Some(text_of(&chars, rest, chars.len()));
                },
                None => {},
            }
        },
        None => {},
    }
    match cookie {
        Some(c) => cookie_token(c),
        None => None,
    }
}

/// The sign-in form.
#[derive(Debug)]
pub struct LoginForm {
    pub email: String,
    pub password: String,
}

/// The registration form.
#[derive(Debug)]
pub struct RegisterForm {
    pub firstname: String,
    pub surname: String,
    pub email: String,
    pub password: String,
    pub confirm_password: String,
}

/// The form on which a code is entered to sign in.
#[derive(Debug)]
pub struct MfaVerifyForm {
    pub challenge_id: String,
    pub code: String,
}

/// The form on which a code is entered to confirm a registration.
#[derive(Debug)]
pub struct RegistrationVerifyForm {
    pub challenge_id: String,
    pub user_id: String,
    pub code: String,
}

/// The query of the page that asks for a code.
#[derive(Debug)]
pub struct MfaQuery {
    pub challenge_id: String,
}

/// The query of the page that confirms a registration.
#[derive(Debug)]
pub struct RegistrationVerifyQuery {
    pub challenge_id: String,
    pub user_id: String,
}

/// The query of the sign-in page.
#[derive(Debug)]
pub struct LoginQuery {}

/// The query of a request for a new code.
#[derive(Debug)]
pub struct ResendMfaQuery {
    pub challenge_id: String,
}

/// The deposit form.
#[derive(Debug)]
pub struct DepositForm {
    pub amount: String,
}

/// The order form.
#[derive(Debug)]
pub struct PlaceOrderForm {
    pub symbol: String,
    /// `buy` or `sell`.
    pub side: String,
    /// `market` or `limit`.
    pub order_type: String,
    pub quantity: String,
    pub price: String,
}

/// The sign-in page.
#[derive(Debug)]
pub struct LoginTemplate {
    pub error: Option<String>,
}

/// The registration page.
#[derive(Debug)]
pub struct RegisterTemplate {
    pub error: Option<String>,
}

/// The page that asks for a code to sign in.
#[derive(Debug)]
pub struct MfaVerifyTemplate {
    pub challenge_id: String,
    pub error: Option<String>,
}

/// The page that asks for a code to confirm a registration.
#[derive(Debug)]
pub struct RegistrationVerifyTemplate {
    pub challenge_id: String,
    pub user_id: String,
    pub error: Option<String>,
}

/// The deposit page.
#[derive(Debug)]
pub struct DepositTemplate {
    pub error: Option<String>,
}

/// The order page.
#[derive(Debug)]
pub struct PlaceOrderTemplate {
    pub error: Option<String>,
    pub account_balance: Money,
}

/// A text as a plain value, if there is one.
pub open spec fn spec_text(t: Option<String>) -> Option<Seq<char>> {
    match t {
        Some(s) => Some(s@),
        None => None,
    }
}

/// `prefix` followed by `detail`.
pub fn explain(prefix: &str, detail: &str) -> (s: String)
    ensures
        s@ == prefix@ + detail@,
{
    let mut out: Vec<char> = Vec::new();
    push_str(prefix, &mut out);
    push_str(detail, &mut out);
    assert(out@ =~= prefix@ + detail@);
    chars_to_string(&out)
}

impl LoginForm {
    /// What is wrong with the form before anything is looked up.
    pub open spec fn spec_check(&self) -> Option<Seq<char>> {
        if self.email@.len() == 0 || self.password@.len() == 0 {
            Some("Email and password are required"@)
        } else {
            None
        }
    }

    /// What is wrong with the form before anything is looked up.
    pub fn check(&self) -> (r: Option<String>)
        ensures
            spec_text(r) == self.spec_check(),
    {
        if self.email.as_str().is_empty() || self.password.as_str().is_empty() {
            Some(String::from_str("Email and password are required"))
        } else {
            None
        }
    }
}

impl RegisterForm {
    /// What is wrong with the form before anything is looked up: the
    /// passwords differ, a field is empty, or the password is short, in
    /// that order.
    pub open spec fn spec_check(&self) -> Option<Seq<char>> {
        if self.password@ != self.confirm_password@ {
            Some("Passwords do not match"@)
        } else if self.firstname@.len() == 0 || self.surname@.len() == 0 || self.email@.len() == 0
            || self.password@.len() == 0 {
            Some("All fields are required"@)
        } else if spec_password_len(self.password@) < MIN_PASSWORD_LEN {
            Some("Password must be at least 6 characters long"@)
        } else {
            None
        }
    }

    /// What is wrong with the form before anything is looked up.
    pub fn check(&self) -> (r: Option<String>)
        ensures
            spec_text(r) == self.spec_check(),
    {
        if !same_text(&self.password, &self.confirm_password) {
            Some(String::from_str("Passwords do not match"))
        } else if self.firstname.as_str().is_empty() || self.surname.as_str().is_empty()
            || self.email.as_str().is_empty() || self.password.as_str().is_empty() {
            Some(String::from_str("All fields are required"))
        } else if byte_len(self.password.as_str()) < MIN_PASSWORD_LEN {
            Some(String::from_str("Password must be at least 6 characters long"))
        } else {
            None
        }
    }
}

/// What is wrong with a code as entered: it must be six bytes long.
pub open spec fn spec_check_code(code: Seq<char>) -> Option<Seq<char>> {
    if spec_password_len(code) != 6 {
        Some("Please enter a valid 6-digit code"@)
    } else {
        None
    }
}

/// What is wrong with a code as entered.
pub fn check_code(code: &str) -> (r: Option<String>)
    ensures
        spec_text(r) == spec_check_code(code@),
{
    if byte_len(code) != 6 {
        Some(String::from_str("Please enter a valid 6-digit code"))
    } else {
        None
    }
}

impl DepositForm {
    /// The amount to deposit: a decimal numeral above zero.
    pub open spec fn spec_parse(&self) -> Result<Money, Seq<char>> {
        match spec_parse_decimal(self.amount@) {
            Some(v) if 0 < v <= u128::MAX => Ok(Money { units: v as u128 }),
            _ => Err("Please enter a valid positive amount"@),
        }
    }

    /// The amount to deposit.
    pub fn parse(&self) -> (r: Result<Money, String>)
        ensures
            match r {
                Ok(m) => self.spec_parse() == Ok::<Money, Seq<char>>(m),
                Err(e) => self.spec_parse() == Err::<Money, Seq<char>>(e@),
            },
    {
        match parse_decimal(self.amount.as_str()) {
            Some(v) => {
                if v > 0 {
                    Ok(Money { units: v })
                } else {
                    Err(String::from_str("Please enter a valid positive amount"))
                }
            },
            None => Err(String::from_str("Please enter a valid positive amount")),
        }
    }
}

/// An order as read from the order form.
#[derive(Debug)]
pub struct PlacedOrder {
    pub symbol: String,
    pub quantity: u64,
    pub order_side: OrderSide,
    pub order_type: OrderType,
}

/// The plain value of a [`PlacedOrder`].
pub struct PlacedOrderView {
    pub symbol: Seq<char>,
    pub quantity: u64,
    pub order_side: OrderSide,
    pub order_type: OrderType,
}

impl View for PlacedOrder {
    type V = PlacedOrderView;

    open spec fn view(&self) -> PlacedOrderView {
        PlacedOrderView {
            symbol: self.symbol@,
            quantity: self.quantity,
            order_side: self.order_side,
            order_type: self.order_type,
        }
    }
}

impl PlaceOrderForm {
    /// The order that the form asks for, or what is wrong with it: the
    /// quantity is looked at first, then the side, then the type and, for
    /// a limit order, the price.
    pub open spec fn spec_parse(&self) -> Result<PlacedOrderView, Seq<char>> {
        let quantity = spec_parse_u64(self.quantity@);
        let price = spec_parse_decimal(self.price@);
        if quantity is None || quantity->0 == 0 {
            Err("Please enter a valid positive quantity"@)
        } else if self.side@ != "buy"@ && self.side@ != "sell"@ {
            Err("Invalid order side"@)
        } else if self.order_type@ != "market"@ && self.order_type@ != "limit"@ {
            Err("Invalid order type"@)
        } else if self.order_type@ == "market"@ {
            Ok(
                PlacedOrderView {
                    symbol: self.symbol@,
                    quantity: quantity->0,
                    order_side: if self.side@ == "buy"@ {
                        OrderSide::Buy
                    } else {
                        OrderSide::Sell
                    },
                    order_type: OrderType::Market,
                },
            )
        } else if price is None || price->0 == 0 || price->0 > u64::MAX {
            Err("Please enter a valid positive price"@)
        } else {
            Ok(
                PlacedOrderView {
                    symbol: self.symbol@,
                    quantity: quantity->0,
                    order_side: if self.side@ == "buy"@ {
                        OrderSide::Buy
                    } else {
                        OrderSide::Sell
                    },
                    order_type: OrderType::Limit(Price { units: price->0 as u64 }),
                },
            )
        }
    }

    /// The order that the form asks for, or what is wrong with it.
    pub fn parse(&self) -> (r: Result<PlacedOrder, String>)
        ensures
            match r {
                Ok(o) => self.spec_parse() == Ok::<PlacedOrderView, Seq<char>>(o@),
                Err(e) => self.spec_parse() == Err::<PlacedOrderView, Seq<char>>(e@),
            },
    {
        let quantity = match parse_u64(self.quantity.as_str()) {
            Some(q) => q,
            None => {
                return Err(String::from_str("Please enter a valid positive quantity"));
            },
        };
        if quantity == 0 {
            return Err(String::from_str("Please enter a valid positive quantity"));
        }
        let buy = String::from_str("buy");
        let sell = String::from_str("sell");
        let order_side = if same_text(&self.side, &buy) {
            OrderSide::Buy
        } else if same_text(&self.side, &sell) {
            OrderSide::Sell
        } else {
            return Err(String::from_str("Invalid order side"));
        };
        let market = String::from_str("market");
        let limit = String::from_str("limit");
        let order_type = if same_text(&self.order_type, &market) {
            OrderType::Market
        } else if same_text(&self.order_type, &limit) {
            match parse_decimal(self.price.as_str()) {
                Some(v) => {
                    if v == 0 || v > u64::MAX as u128 {
                        return Err(String::from_str("Please enter a valid positive price"));
                    }
                    OrderType::Limit(Price { units: v as u64 })
                },
                None => {
                    return Err(String::from_str("Please enter a valid positive price"));
                },
            }
        } else {
            return Err(String::from_str("Invalid order type"));
        };
        Ok(PlacedOrder { symbol: self.symbol.clone(), quantity, order_side, order_type })
    }
}

/// What follows a check of the first factor.
#[derive(Debug)]
pub enum LoginStep {
    /// The password was accepted: send a code to sign in.
    SendCode,
    /// The address is not verified yet: send a code to confirm the
    /// registration of this user.
    ConfirmRegistration(UserId),
    /// Show the sign-in page again with this error.
    Refuse(String),
}

/// The plain value of a [`LoginStep`].
pub enum LoginStepView {
    SendCode,
    ConfirmRegistration(UserId),
    Refuse(Seq<char>),
}

impl View for LoginStep {
    type V = LoginStepView;

    open spec fn view(&self) -> LoginStepView {
        match self {
            LoginStep::SendCode => LoginStepView::SendCode,
            LoginStep::ConfirmRegistration(id) => LoginStepView::ConfirmRegistration(*id),
            LoginStep::Refuse(m) => LoginStepView::Refuse(m@),
        }
    }
}

/// What follows a check of the first factor: any refusal but that of an
/// unverified address reads the same, so that nothing is told about which
/// addresses are registered.
pub open spec fn spec_login_step(auth: Result<bool, AuthErrorView>) -> LoginStepView {
    match auth {
        Ok(_) => LoginStepView::SendCode,
        Err(AuthErrorView::NotVerified(id)) => LoginStepView::ConfirmRegistration(id),
        Err(_) => LoginStepView::Refuse("Invalid email or password"@),
    }
}

/// What follows a check of the first factor.
pub fn login_step(auth: &Result<bool, AuthError>) -> (step: LoginStep)
    ensures
        step@ == spec_login_step(
            match auth {
                Ok(b) => Ok(*b),
                Err(e) => Err(e@),
            },
        ),
{
    match auth {
        Ok(_) => LoginStep::SendCode,
        Err(AuthError::NotVerified(id)) => LoginStep::ConfirmRegistration(*id),
        Err(_) => LoginStep::Refuse(String::from_str("Invalid email or password")),
    }
}

/// Where the browser goes to enter the code of the challenge
/// `challenge_id`.
pub fn mfa_redirect(challenge_id: &str) -> (s: String)
    ensures
        s@ == "/verify-mfa?challenge_id="@ + challenge_id@,
{
    explain("/verify-mfa?challenge_id=", challenge_id)
}

/// Where the browser goes to confirm the registration of `user_id` with
/// the code of the challenge `challenge_id`.
pub fn registration_redirect(challenge_id: &str, user_id: UserId) -> (s: String)
    ensures
        s@ == "/verify-registration?challenge_id="@ + challenge_id@ + "&user_id="@ + spec_id_text(
            user_id,
        ),
{
    let mut out: Vec<char> = Vec::new();
    push_str("/verify-registration?challenge_id=", &mut out);
    push_str(challenge_id, &mut out);
    push_str("&user_id=", &mut out);
    let id = id_text(user_id);
    push_str(id.as_str(), &mut out);
    assert(out@ =~= "/verify-registration?challenge_id="@ + challenge_id@ + "&user_id="@
        + spec_id_text(user_id));
    chars_to_string(&out)
}

/// What is shown after a code was checked: nothing where it was
/// accepted, else the error.
pub open spec fn spec_verification_error(result: Result<bool, MfaErrorView>) -> Option<Seq<char>> {
    match result {
        Ok(true) => None,
        Ok(false) => Some("Invalid verification code"@),
        Err(e) => Some("Verification failed: "@ + e.message()),
    }
}

/// What is shown after a code was checked.
pub fn verification_error(result: &Result<bool, MfaError>) -> (r: Option<String>)
    ensures
        spec_text(r) == spec_verification_error(
            match result {
                Ok(b) => Ok(*b),
                Err(e) => Err(e@),
            },
        ),
{
    match result {
        Ok(true) => None,
        Ok(false) => Some(String::from_str("Invalid verification code")),
        Err(e) => {
            let detail = e.message();
            Some(explain("Verification failed: ", detail.as_str()))
        },
    }
}

/// What is shown when an order from the order form was refused.
pub fn order_refused(error: &PreTradeError) -> (s: String)
    ensures
        s@ == "Order placement failed: "@ + error@.message(),
{
    let detail = error.message();
    explain("Order placement failed: ", detail.as_str())
}

/// What is shown when a registration was refused.
pub fn registration_refused(error: &AuthError) -> (s: String)
    ensures
        s@ == "Registration failed: "@ + error@.message(),
{
    let detail = error.message();
    explain("Registration failed: ", detail.as_str())
}

/// What is shown when a code could not be sent.
pub fn sending_failed(error: &MfaError) -> (s: String)
    ensures
        s@ == "Failed to send verification code: "@ + error@.message(),
{
    let detail = error.message();
    explain("Failed to send verification code: ", detail.as_str())
}

/// What is shown when the code that confirms a registration could not be
/// sent.
pub fn registration_sending_failed(error: &MfaError) -> (s: String)
    ensures
        s@ == "Failed to send verification email: "@ + error@.message(),
{
    let detail = error.message();
    explain("Failed to send verification email: ", detail.as_str())
}

/// What is shown when a new code could not be sent.
pub fn resending_failed(error: &MfaError) -> (s: String)
    ensures
        s@ == "Failed to resend verification code: "@ + error@.message(),
{
    let detail = error.message();
    explain("Failed to resend verification code: ", detail.as_str())
}

/// What is shown when the challenge of an accepted code cannot be read.
pub fn challenge_failed(error: &MfaError) -> (s: String)
    ensures
        s@ == "Challenge error: "@ + error@.message(),
{
    let detail = error.message();
    explain("Challenge error: ", detail.as_str())
}

/// What is shown when a deposit failed.
pub fn deposit_failed(error: &AuthError) -> (s: String)
    ensures
        s@ == "Deposit failed: "@ + error@.message(),
{
    let detail = error.message();
    explain("Deposit failed: ", detail.as_str())
}

/// What follows a registration form that passed its check.
#[derive(Debug)]
pub enum RegistrationStep {
    /// The address is free: register the user, then confirm the address.
    Create,
    /// The address belongs to this user, who never confirmed it: confirm
    /// it now.
    Resume(UserId),
    /// Show the registration page again with this error.
    Refuse(String),
}

/// The plain value of a [`RegistrationStep`].
pub enum RegistrationStepView {
    Create,
    Resume(UserId),
    Refuse(Seq<char>),
}

impl View for RegistrationStep {
    type V = RegistrationStepView;

    open spec fn view(&self) -> RegistrationStepView {
        match self {
            RegistrationStep::Create => RegistrationStepView::Create,
            RegistrationStep::Resume(id) => RegistrationStepView::Resume(*id),
            RegistrationStep::Refuse(m) => RegistrationStepView::Refuse(m@),
        }
    }
}

/// What follows a registration for an address under which `existing` is
/// registered.
pub open spec fn spec_registration_step(existing: Option<User>) -> RegistrationStepView {
    match existing {
        None => RegistrationStepView::Create,
        Some(user) => {
            if user.is_verified {
                RegistrationStepView::Refuse("Email already exists"@)
            } else {
                match user.id {
                    Some(id) => RegistrationStepView::Resume(id),
                    None => RegistrationStepView::Refuse("User ID not found"@),
                }
            }
        },
    }
}

/// What follows a registration for an address under which `existing` is
/// registered.
pub fn registration_step(existing: &Option<User>) -> (step: RegistrationStep)
    ensures
        step@ == spec_registration_step(*existing),
{
    match existing {
        None => RegistrationStep::Create,
        Some(user) => {
            if user.is_verified {
                RegistrationStep::Refuse(String::from_str("Email already exists"))
            } else {
                match user.id {
                    Some(id) => RegistrationStep::Resume(id),
                    None => RegistrationStep::Refuse(String::from_str("User ID not found")),
                }
            }
        },
    }
}

/// For whom a session begins once a code was accepted: the user of the
/// challenge, with identifier and address, or what is shown instead.
pub open spec fn spec_session_owner(user: Option<User>) -> Result<(UserId, Seq<char>), Seq<char>> {
    match user {
        None => Err("User account not found"@),
        Some(u) => match u.id {
            Some(id) => Ok((id, u.email@)),
            None => Err("User ID not found"@),
        },
    }
}

/// For whom a session begins once a code was accepted.
pub fn session_owner(user: &Option<User>) -> (r: Result<(UserId, String), String>)
    ensures
        match r {
            Ok((id, email)) => spec_session_owner(*user) == Ok::<(UserId, Seq<char>), Seq<char>>(
                (id, email@),
            ),
            Err(m) => spec_session_owner(*user) == Err::<(UserId, Seq<char>), Seq<char>>(m@),
        },
{
    match user {
        None => Err(String::from_str("User account not found")),
        Some(u) => match u.id {
            Some(id) => Ok((id, u.email.clone())),
            None => Err(String::from_str("User ID not found")),
        },
    }
}

/// The user that a registration form names, or what is shown where the
/// text names none.
pub fn parse_user_id(text: &str) -> (r: Result<UserId, String>)
    ensures
        match r {
            Ok(id) => spec_parse_id(text@) == Some(id),
            Err(m) => spec_parse_id(text@) is None && m@ == "Invalid user ID"@,
        },
{
    match parse_id(text) {
        Some(id) => Ok(id),
        None => Err(String::from_str("Invalid user ID")),
    }
}

} // verus!
