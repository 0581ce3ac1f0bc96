//! One-time codes sent as a second factor: challenges, the providers that
//! issue and check them, and the service in front of a provider.

use crate::order::Timestamp;
use crate::pre_trade::same_text;
use crate::sys::{
    fresh_id, id_text, now_micros, random_in_range, ID_FORMAT_MASK, ID_FORMAT_RANDOM,
};
use crate::text::{digit, push_decimal, spec_decimal, spec_digit};
use crate::text::{chars_to_string, push_str};
use vstd::prelude::*;
use vstd::string::StringExecFns;

verus! {

/// Why a second-factor operation failed.
#[derive(Debug)]
pub enum MfaError {
    SendingFailed(String),
    ChallengeNotFound,
    ChallengeExpired,
    InvalidCode,
    ServiceUnavailable,
}

/// The mathematical value of an [`MfaError`].
pub enum MfaErrorView {
    SendingFailed(Seq<char>),
    ChallengeNotFound,
    ChallengeExpired,
    InvalidCode,
    ServiceUnavailable,
}

impl View for MfaError {
    type V = MfaErrorView;

    open spec fn view(&self) -> MfaErrorView {
        match self {
            MfaError::SendingFailed(m) => MfaErrorView::SendingFailed(m@),
            MfaError::ChallengeNotFound => MfaErrorView::ChallengeNotFound,
            MfaError::ChallengeExpired => MfaErrorView::ChallengeExpired,
            MfaError::InvalidCode => MfaErrorView::InvalidCode,
            MfaError::ServiceUnavailable => MfaErrorView::ServiceUnavailable,
        }
    }
}

impl MfaErrorView {
    /// The text shown for this failure.
    pub open spec fn message(self) -> Seq<char> {
        match self {
            MfaErrorView::SendingFailed(m) => "Failed to send OTP: "@ + m,
            MfaErrorView::ChallengeNotFound => "Challenge not found"@,
            MfaErrorView::ChallengeExpired => "Challenge has expired"@,
            MfaErrorView::InvalidCode => "Invalid verification code"@,
            MfaErrorView::ServiceUnavailable => "MFA service is temporarily unavailable"@,
        }
    }
}

impl Clone for MfaError {
    fn clone(&self) -> (r: Self)
        ensures
            r == *self,
    {
        match self {
            MfaError::SendingFailed(m) => MfaError::SendingFailed(m.clone()),
            MfaError::ChallengeNotFound => MfaError::ChallengeNotFound,
            MfaError::ChallengeExpired => MfaError::ChallengeExpired,
            MfaError::InvalidCode => MfaError::InvalidCode,
            MfaError::ServiceUnavailable => MfaError::ServiceUnavailable,
        }
    }
}

impl MfaError {
    /// The text shown for this failure.
    pub fn message(&self) -> (s: String)
        ensures
            s@ == self@.message(),
    {
        let mut out: Vec<char> = Vec::new();
        match self {
            MfaError::SendingFailed(m) => {
                push_str("Failed to send OTP: ", &mut out);
                push_str(m.as_str(), &mut out);
            },
            MfaError::ChallengeNotFound => {
                push_str("Challenge not found", &mut out);
            },
            MfaError::ChallengeExpired => {
                push_str("Challenge has expired", &mut out);
            },
            MfaError::InvalidCode => {
                push_str("Invalid verification code", &mut out);
            },
            MfaError::ServiceUnavailable => {
                push_str("MFA service is temporarily unavailable", &mut out);
            },
        }
        assert(out@ =~= self@.message());
        chars_to_string(&out)
    }
}

/// A one-time code issued to a user, valid until `expires_at`.
#[derive(Debug)]
pub struct OtpChallenge {
    pub id: String,
    pub user_email: String,
    pub code: String,
    pub verified: bool,
    pub created_at: Timestamp,
    pub expires_at: Timestamp,
}

/// The mathematical value of an [`OtpChallenge`].
pub struct OtpChallengeView {
    pub id: Seq<char>,
    pub user_email: Seq<char>,
    pub code: Seq<char>,
    pub verified: bool,
    pub created_at: Timestamp,
    pub expires_at: Timestamp,
}

impl View for OtpChallenge {
    type V = OtpChallengeView;

    open spec fn view(&self) -> OtpChallengeView {
        OtpChallengeView {
            id: self.id@,
            user_email: self.user_email@,
            code: self.code@,
            verified: self.verified,
            created_at: self.created_at,
            expires_at: self.expires_at,
        }
    }
}

impl Clone for OtpChallenge {
    fn clone(&self) -> (r: Self)
        ensures
            r == *self,
    {
        OtpChallenge {
            id: self.id.clone(),
            user_email: self.user_email.clone(),
            code: self.code.clone(),
            verified: self.verified,
            created_at: self.created_at,
            expires_at: self.expires_at,
        }
    }
}

/// The least number from which a code is made.
pub const OTP_LOW: u32 = 100_000;

/// The number below which the numbers lie from which a code is made.
pub const OTP_HIGH: u32 = 999_999;

/// How long a challenge stays valid, in microseconds: five minutes.
pub const CHALLENGE_LIFETIME_MICROS: u64 = 300_000_000;

/// The time at which a challenge issued at `now` expires: `lifetime`
/// microseconds later, or at the end of time where that is sooner.
pub open spec fn spec_expiry(now: Timestamp, lifetime: u64) -> Timestamp {
    if now + lifetime > i64::MAX {
        i64::MAX
    } else {
        (now + lifetime) as i64
    }
}

/// The time at which a challenge issued at `now` expires.
pub fn expiry(now: Timestamp, lifetime: u64) -> (t: Timestamp)
    ensures
        t == spec_expiry(now, lifetime),
{
    let end: i128 = now as i128 + lifetime as i128;
    if end > i64::MAX as i128 {
        i64::MAX
    } else {
        end as i64
    }
}

/// The index of the first challenge at or after `from` whose identifier
/// is `id`.
pub open spec fn spec_first_challenge(
    entries: Seq<OtpChallengeView>,
    id: Seq<char>,
    from: int,
) -> Option<int>
    decreases entries.len() - from,
{
    if from < 0 || from >= entries.len() {
        None
    } else if entries[from].id == id {
        Some(from)
    } else {
        spec_first_challenge(entries, id, from + 1)
    }
}

/// The challenges after filing `challenge`: it goes to the end, in place of
/// an earlier one of the same identifier.
pub open spec fn spec_filed(entries: Seq<OtpChallengeView>, challenge: OtpChallengeView) -> Seq<
    OtpChallengeView,
> {
    match spec_first_challenge(entries, challenge.id, 0) {
        Some(i) => entries.remove(i).push(challenge),
        None => entries.push(challenge),
    }
}

/// Issued challenges, in the order in which they were filed.
#[derive(Debug)]
pub struct ChallengeStore {
    entries: Vec<OtpChallenge>,
}

impl View for ChallengeStore {
    type V = Seq<OtpChallengeView>;

    closed spec fn view(&self) -> Seq<OtpChallengeView> {
        Seq::new(self.entries@.len(), |i: int| self.entries@[i]@)
    }
}

impl ChallengeStore {
    /// No challenges.
    pub fn new() -> (s: Self)
        ensures
            s@ == Seq::<OtpChallengeView>::empty(),
    {
        let s = ChallengeStore { entries: Vec::new() };
        assert(s@ =~= Seq::<OtpChallengeView>::empty());
        s
    }

    /// The number of challenges.
    pub fn len(&self) -> (n: usize)
        ensures
            n == self@.len(),
    {
        self.entries.len()
    }

    /// The position of the challenge `id`.
    pub fn find(&self, id: &String) -> (r: Option<usize>)
        ensures
            match r {
                Some(i) => spec_first_challenge(self@, id@, 0) == Some(i as int) && i < self@.len(),
                None => spec_first_challenge(self@, id@, 0) is None,
            },
    {
        let mut i: usize = 0;
        while i < self.entries.len()
            invariant
                i <= self.entries@.len(),
                spec_first_challenge(self@, id@, 0) == spec_first_challenge(self@, id@, i as int),
            decreases self.entries.len() - i,
        {
            if same_text(&self.entries[i].id, id) {
                return Some(i);
            }
            i += 1;
        }
        None
    }

    /// The challenge at position `i`.
    pub fn at(&self, i: usize) -> (c: &OtpChallenge)
        requires
            i < self@.len(),
        ensures
            c@ == self@[i as int],
    {
        &self.entries[i]
    }

    /// The challenge filed last.
    pub fn last(&self) -> (r: Option<&OtpChallenge>)
        ensures
            match r {
                Some(c) => self@.len() > 0 && c@ == self@.last(),
                None => self@.len() == 0,
            },
    {
        if self.entries.len() == 0 {
            None
        } else {
            Some(&self.entries[self.entries.len() - 1])
        }
    }

    /// Files `challenge` at the end, in place of an earlier one of the same
    /// identifier.
    pub fn file(&mut self, challenge: OtpChallenge)
        ensures
            final(self)@ == spec_filed(old(self)@, challenge@),
    {
        match self.find(&challenge.id) {
            Some(i) => {
                self.entries.remove(i);
                assert(self@ =~= old(self)@.remove(i as int));
            },
            None => {},
        }
        self.entries.push(challenge);
        assert(self@ =~= spec_filed(old(self)@, challenge@));
    }

    /// Marks the challenge at position `i` as verified.
    pub fn mark_verified(&mut self, i: usize)
        requires
            i < old(self)@.len(),
        ensures
            final(self)@ == old(self)@.update(
                i as int,
                OtpChallengeView { verified: true, ..old(self)@[i as int] },
            ),
    {
        let mut c = self.entries[i].clone();
        c.verified = true;
        self.entries[i] = c;
        assert(self@ =~= old(self)@.update(
            i as int,
            OtpChallengeView { verified: true, ..old(self)@[i as int] },
        ));
    }

    /// Drops the challenge at position `i`.
    pub fn discard(&mut self, i: usize)
        requires
            i < old(self)@.len(),
        ensures
            final(self)@ == old(self)@.remove(i as int),
    {
        self.entries.remove(i);
        assert(self@ =~= old(self)@.remove(i as int));
    }
}

/// The results of providers, as plain values.
pub open spec fn spec_text_result(r: Result<String, MfaError>) -> Result<Seq<char>, MfaErrorView> {
    match r {
        Ok(s) => Ok(s@),
        Err(e) => Err(e@),
    }
}

/// The results of providers, as plain values.
pub open spec fn spec_flag_result(r: Result<bool, MfaError>) -> Result<bool, MfaErrorView> {
    match r {
        Ok(b) => Ok(b),
        Err(e) => Err(e@),
    }
}

/// The results of providers, as plain values.
pub open spec fn spec_challenge_result(r: Result<OtpChallenge, MfaError>) -> Result<
    OtpChallengeView,
    MfaErrorView,
> {
    match r {
        Ok(c) => Ok(c@),
        Err(e) => Err(e@),
    }
}

/// Issues one-time codes and checks them. Each provider says by three
/// relations what its operations do; the time that an operation reads from
/// the clock appears in them as `now`.
pub trait MfaProvider {
    /// Whether `after` and `r` are what sending a code to `email` can
    /// make of `self`.
    spec fn spec_sent(
        &self,
        after: &Self,
        email: Seq<char>,
        r: Result<Seq<char>, MfaErrorView>,
    ) -> bool;

    /// Whether `after` and `r` are what checking `code` for the challenge
    /// `id` at time `now` makes of `self`.
    spec fn spec_verified(
        &self,
        after: &Self,
        id: Seq<char>,
        code: Seq<char>,
        now: Timestamp,
        r: Result<bool, MfaErrorView>,
    ) -> bool;

    /// Whether `r` is what asking for the challenge `id` at time `now`
    /// gives.
    spec fn spec_got(
        &self,
        id: Seq<char>,
        now: Timestamp,
        r: Result<OtpChallengeView, MfaErrorView>,
    ) -> bool;

    /// Issues a code for `user_email` and returns the identifier of the
    /// challenge.
    fn send_otp(&mut self, user_email: &str) -> (r: Result<String, MfaError>)
        ensures
            old(self).spec_sent(final(self), user_email@, spec_text_result(r)),
    ;

    /// Checks `code` for the challenge `challenge_id`.
    fn verify_otp(&mut self, challenge_id: &str, code: &str) -> (r: Result<bool, MfaError>)
        ensures
            exists|now: Timestamp| #[trigger]
                old(self).spec_verified(
                    final(self),
                    challenge_id@,
                    code@,
                    now,
                    spec_flag_result(r),
                ),
    ;

    /// The challenge `challenge_id`.
    fn get_challenge(&self, challenge_id: &str) -> (r: Result<OtpChallenge, MfaError>)
        ensures
            exists|now: Timestamp| #[trigger]
                self.spec_got(challenge_id@, now, spec_challenge_result(r)),
    ;
}

/// A provider for tests: it sends nothing, its code is always `123456`,
/// and it can be told to fail.
#[derive(Debug)]
pub struct MockMfaProvider {
    challenges: ChallengeStore,
    should_fail_send: bool,
    should_fail_verify: bool,
}

/// The challenge that the test provider issues under `id` for `email` at
/// `now`.
pub open spec fn spec_mock_challenge(
    id: u128,
    email: Seq<char>,
    now: Timestamp,
) -> OtpChallengeView {
    OtpChallengeView {
        id: crate::sys::spec_id_text(id),
        user_email: email,
        code: "123456"@,
        verified: false,
        created_at: now,
        expires_at: spec_expiry(now, CHALLENGE_LIFETIME_MICROS),
    }
}

impl MockMfaProvider {
    /// The challenges held, in the order of filing.
    pub closed spec fn challenges(&self) -> Seq<OtpChallengeView> {
        self.challenges@
    }

    /// Whether sending was told to fail.
    pub closed spec fn fails_send(&self) -> bool {
        self.should_fail_send
    }

    /// Whether verifying was told to fail.
    pub closed spec fn fails_verify(&self) -> bool {
        self.should_fail_verify
    }

    /// A provider without challenges that fails nothing.
    pub fn new() -> (p: Self)
        ensures
            p.challenges() == Seq::<OtpChallengeView>::empty(),
            !p.fails_send(),
            !p.fails_verify(),
    {
        Self {
            challenges: ChallengeStore::new(),
            should_fail_send: false,
            should_fail_verify: false,
        }
    }

    /// This provider, told to fail every sending.
    pub fn with_send_failure(self) -> (p: Self)
        ensures
            p.challenges() == self.challenges(),
            p.fails_send(),
            p.fails_verify() == self.fails_verify(),
    {
        let mut p = self;
        p.should_fail_send = true;
        p
    }

    /// This provider, told to fail every verification.
    pub fn with_verify_failure(self) -> (p: Self)
        ensures
            p.challenges() == self.challenges(),
            p.fails_send() == self.fails_send(),
            p.fails_verify(),
    {
        let mut p = self;
        p.should_fail_verify = true;
        p
    }

    /// The challenge filed last.
    pub fn get_last_challenge(&self) -> (r: Option<OtpChallenge>)
        ensures
            match r {
                Some(c) => self.challenges().len() > 0 && c@ == self.challenges().last(),
                None => self.challenges().len() == 0,
            },
    {
        match self.challenges.last() {
            Some(c) => Some(c.clone()),
            None => None,
        }
    }

    /// Files `challenge` as if this provider had issued it.
    pub fn insert_challenge(&mut self, challenge: OtpChallenge)
        ensures
            final(self).challenges() == spec_filed(old(self).challenges(), challenge@),
            final(self).fails_send() == old(self).fails_send(),
            final(self).fails_verify() == old(self).fails_verify(),
    {
        self.challenges.file(challenge);
    }

    /// What sending to `email` does, with `id` for the challenge and `now`
    /// for the time.
    pub open spec fn spec_sent_with(
        &self,
        after: &Self,
        email: Seq<char>,
        id: u128,
        now: Timestamp,
        r: Result<Seq<char>, MfaErrorView>,
    ) -> bool {
        &&& after.fails_send() == self.fails_send()
        &&& after.fails_verify() == self.fails_verify()
        &&& if self.fails_send() {
            &&& r == Err::<Seq<char>, MfaErrorView>(MfaErrorView::SendingFailed("Mock failure"@))
            &&& after.challenges() == self.challenges()
        } else {
            &&& r == Ok::<Seq<char>, MfaErrorView>(crate::sys::spec_id_text(id))
            &&& after.challenges() == spec_filed(
                self.challenges(),
                spec_mock_challenge(id, email, now),
            )
        }
    }

    /// Issues a challenge for `user_email` under the identifier `id` at time
    /// `now`, unless told to fail.
    pub fn send_otp_with(&mut self, user_email: &str, id: u128, now: Timestamp) -> (r: Result<
        String,
        MfaError,
    >)
        ensures
            old(self).spec_sent_with(final(self), user_email@, id, now, spec_text_result(r)),
    {
        if self.should_fail_send {
            return Err(MfaError::SendingFailed(String::from_str("Mock failure")));
        }
        let challenge_id = id_text(id);
        let challenge = OtpChallenge {
            id: challenge_id.clone(),
            user_email: String::from_str(user_email),
            code: String::from_str("123456"),
            verified: false,
            created_at: now,
            expires_at: expiry(now, CHALLENGE_LIFETIME_MICROS),
        };
        self.challenges.file(challenge);
        Ok(challenge_id)
    }

    /// Checks `code` for the challenge `challenge_id` at time `now`.
    pub fn verify_otp_at(&mut self, challenge_id: &str, code: &str, now: Timestamp) -> (r: Result<
        bool,
        MfaError,
    >)
        ensures
            old(self).spec_verified(final(self), challenge_id@, code@, now, spec_flag_result(r)),
    {
        if self.should_fail_verify {
            return Err(MfaError::ServiceUnavailable);
        }
        let id = String::from_str(challenge_id);
        let i = match self.challenges.find(&id) {
            Some(i) => i,
            None => {
                return Err(MfaError::ChallengeNotFound);
            },
        };
        if now > self.challenges.at(i).expires_at {
            return Err(MfaError::ChallengeExpired);
        }
        let given = String::from_str(code);
        if !same_text(&self.challenges.at(i).code, &given) {
            return Err(MfaError::InvalidCode);
        }
        self.challenges.mark_verified(i);
        Ok(true)
    }

    /// The challenge `challenge_id`, whether expired or not.
    pub fn find_challenge(&self, challenge_id: &str) -> (r: Result<OtpChallenge, MfaError>)
        ensures
            self.spec_got(challenge_id@, 0, spec_challenge_result(r)),
    {
        let id = String::from_str(challenge_id);
        match self.challenges.find(&id) {
            Some(i) => Ok(self.challenges.at(i).clone()),
            None => Err(MfaError::ChallengeNotFound),
        }
    }
}

impl MfaProvider for MockMfaProvider {
    open spec fn spec_sent(
        &self,
        after: &Self,
        email: Seq<char>,
        r: Result<Seq<char>, MfaErrorView>,
    ) -> bool {
        exists|id: u128, now: Timestamp|
            id & ID_FORMAT_MASK == ID_FORMAT_RANDOM && #[trigger] self.spec_sent_with(
                after,
                email,
                id,
                now,
                r,
            )
    }

    open spec fn spec_verified(
        &self,
        after: &Self,
        id: Seq<char>,
        code: Seq<char>,
        now: Timestamp,
        r: Result<bool, MfaErrorView>,
    ) -> bool {
        &&& after.fails_send() == self.fails_send()
        &&& after.fails_verify() == self.fails_verify()
        &&& if self.fails_verify() {
            r == Err::<bool, MfaErrorView>(MfaErrorView::ServiceUnavailable) && after.challenges()
                == self.challenges()
        } else {
            match spec_first_challenge(self.challenges(), id, 0) {
                None => r == Err::<bool, MfaErrorView>(MfaErrorView::ChallengeNotFound)
                    && after.challenges() == self.challenges(),
                Some(i) => {
                    let c = self.challenges()[i];
                    if now > c.expires_at {
                        r == Err::<bool, MfaErrorView>(MfaErrorView::ChallengeExpired)
                            && after.challenges() == self.challenges()
                    } else if c.code != code {
                        r == Err::<bool, MfaErrorView>(MfaErrorView::InvalidCode)
                            && after.challenges() == self.challenges()
                    } else {
                        r == Ok::<bool, MfaErrorView>(true) && after.challenges()
                            == self.challenges().update(
                            i,
                            OtpChallengeView { verified: true, ..c },
                        )
                    }
                },
            }
        }
    }

    open spec fn spec_got(
        &self,
        id: Seq<char>,
        now: Timestamp,
        r: Result<OtpChallengeView, MfaErrorView>,
    ) -> bool {
        match spec_first_challenge(self.challenges(), id, 0) {
            Some(i) => r == Ok::<OtpChallengeView, MfaErrorView>(self.challenges()[i]),
            None => r == Err::<OtpChallengeView, MfaErrorView>(MfaErrorView::ChallengeNotFound),
        }
    }

    fn send_otp(&mut self, user_email: &str) -> (r: Result<String, MfaError>) {
        let id = fresh_id();
        let now = now_micros();
        let r = self.send_otp_with(user_email, id, now);
        assert(old(self).spec_sent_with(self, user_email@, id, now, spec_text_result(r)));
        r
    }

    fn verify_otp(&mut self, challenge_id: &str, code: &str) -> (r: Result<bool, MfaError>) {
        let now = now_micros();
        let r = self.verify_otp_at(challenge_id, code, now);
        assert(old(self).spec_verified(self, challenge_id@, code@, now, spec_flag_result(r)));
        r
    }

    fn get_challenge(&self, challenge_id: &str) -> (r: Result<OtpChallenge, MfaError>) {
        let r = self.find_challenge(challenge_id);
        assert(self.spec_got(challenge_id@, 0, spec_challenge_result(r)));
        r
    }
}

/// The account from which codes are mailed.
#[derive(Debug)]
pub struct EmailConfig {
    pub smtp_server: String,
    pub smtp_port: u16,
    pub username: String,
    pub password: String,
    pub from_email: String,
    pub from_name: String,
}

impl Clone for EmailConfig {
    fn clone(&self) -> (r: Self)
        ensures
            r == *self,
    {
        EmailConfig {
            smtp_server: self.smtp_server.clone(),
            smtp_port: self.smtp_port,
            username: self.username.clone(),
            password: self.password.clone(),
            from_email: self.from_email.clone(),
            from_name: self.from_name.clone(),
        }
    }
}

impl EmailConfig {
    /// The sender of the messages: the name, then the address in angle
    /// brackets.
    pub fn sender(&self) -> (s: String)
        ensures
            s@ == self.from_name@ + " <"@ + self.from_email@ + ">"@,
    {
        let mut out: Vec<char> = Vec::new();
        push_str(self.from_name.as_str(), &mut out);
        push_str(" <", &mut out);
        push_str(self.from_email.as_str(), &mut out);
        push_str(">", &mut out);
        assert(out@ =~= self.from_name@ + " <"@ + self.from_email@ + ">"@);
        chars_to_string(&out)
    }

    /// An account for tests, on the local machine.
    pub fn for_testing() -> (c: Self)
        ensures
            c.smtp_server@ == "localhost"@,
            c.smtp_port == 25,
            c.username@ == "test"@,
            c.password@ == "test"@,
            c.from_email@ == "test@test.com"@,
            c.from_name@ == "BrokerX Security"@,
    {
        EmailConfig {
            smtp_server: String::from_str("localhost"),
            smtp_port: 25,
            username: String::from_str("test"),
            password: String::from_str("test"),
            from_email: String::from_str("test@test.com"),
            from_name: String::from_str("BrokerX Security"),
        }
    }
}

/// A message that awaits sending.
#[derive(Debug)]
pub struct OutgoingEmail {
    /// The challenge whose code the message carries.
    pub challenge_id: String,
    pub to: String,
    pub subject: String,
    pub body: String,
}

/// The mathematical value of an [`OutgoingEmail`].
pub struct OutgoingEmailView {
    pub challenge_id: Seq<char>,
    pub to: Seq<char>,
    pub subject: Seq<char>,
    pub body: Seq<char>,
}

impl View for OutgoingEmail {
    type V = OutgoingEmailView;

    open spec fn view(&self) -> OutgoingEmailView {
        OutgoingEmailView {
            challenge_id: self.challenge_id@,
            to: self.to@,
            subject: self.subject@,
            body: self.body@,
        }
    }
}

/// The address whose code is fixed, for trying the system out.
pub open spec fn spec_test_address() -> Seq<char> {
    "test@test.com"@
}

/// The code for the number `n`: six digits, with leading zeros.
pub open spec fn spec_otp_code(n: u32) -> Seq<char> {
    if n >= 1_000_000 {
        spec_decimal(n as nat)
    } else {
        seq![
            spec_digit((n / 100_000) as int),
            spec_digit(((n / 10_000) % 10) as int),
            spec_digit(((n / 1000) % 10) as int),
            spec_digit(((n / 100) % 10) as int),
            spec_digit(((n / 10) % 10) as int),
            spec_digit((n % 10) as int),
        ]
    }
}

/// The code for the number `n`.
pub fn otp_code(n: u32) -> (s: String)
    ensures
        s@ == spec_otp_code(n),
        n < 1_000_000 ==> s@.len() == 6,
{
    let mut out: Vec<char> = Vec::new();
    if n >= 1_000_000 {
        push_decimal(n as u128, &mut out);
        assert(out@ =~= spec_decimal(n as nat));
    } else {
        out.push(digit((n / 100_000) as u8));
        out.push(digit(((n / 10_000) % 10) as u8));
        out.push(digit(((n / 1000) % 10) as u8));
        out.push(digit(((n / 100) % 10) as u8));
        out.push(digit(((n / 10) % 10) as u8));
        out.push(digit((n % 10) as u8));
        assert(out@ =~= spec_otp_code(n));
    }
    crate::text::chars_to_string(&out)
}

/// The subject of the message that carries a code.
pub open spec fn spec_email_subject() -> Seq<char> {
    "BrokerX - Your Verification Code"@
}

/// The message up to the code.
pub open spec fn spec_email_head() -> Seq<char> {
    "\n<!DOCTYPE html>\n<html>\n<head>\n    <style>\n        body { font-family: Arial, \
    sans-serif; max-width: 600px; margin: 0 auto; padding: 20px; }\n        \
    .header { background-color: #f8f9fa; padding: 20px; text-align: center; \
    border-radius: 8px; }\n        .code { font-size: 32px; font-weight: bold; \
    color: #007bff; text-align: center; margin: 20px 0; }\n        .footer { \
    color: #666; font-size: 12px; text-align: center; margin-top: 20px; }\n    \
    </style>\n</head>\n<body>\n    <div class=\"header\">\n        <h1>BrokerX Security \
    Verification</h1>\n    </div>\n    \n    <p>Hello,</p>\n    \n    <p>You have \
    requested to sign in to your BrokerX account. Please use the verification \
    code below:</p>\n    \n    <div class=\"code\">"@
}

/// The message after the code.
pub open spec fn spec_email_tail() -> Seq<char> {
    "</div>\n    \n    <p>This code will expire in 5 minutes for security \
    reasons.</p>\n    \n    <p>If you did not request this code, please ignore this \
    email.</p>\n    \n    <div class=\"footer\">\n        <p>This is an automated \
    message from BrokerX. Please do not reply to this email.</p>\n    </div>\n\
    </body>\n</html>\n            "@
}

/// Appends the message up to the code.
fn push_email_head(out: &mut Vec<char>)
    ensures
        final(out)@ == old(out)@ + spec_email_head(),
{
    push_str(
        "\n<!DOCTYPE html>\n<html>\n<head>\n    <style>\n        body { font-family: Arial, \
        sans-serif; max-width: 600px; margin: 0 auto; padding: 20px; }\n        \
        .header { background-color: #f8f9fa; padding: 20px; text-align: center; \
        border-radius: 8px; }\n        .code { font-size: 32px; font-weight: bold; \
        color: #007bff; text-align: center; margin: 20px 0; }\n        .footer { \
        color: #666; font-size: 12px; text-align: center; margin-top: 20px; }\n    \
        </style>\n</head>\n<body>\n    <div class=\"header\">\n        <h1>BrokerX Security \
        Verification</h1>\n    </div>\n    \n    <p>Hello,</p>\n    \n    <p>You have \
        requested to sign in to your BrokerX account. Please use the verification \
        code below:</p>\n    \n    <div class=\"code\">",
        out,
    );
}

/// Appends the message after the code.
fn push_email_tail(out: &mut Vec<char>)
    ensures
        final(out)@ == old(out)@ + spec_email_tail(),
{
    push_str(
        "</div>\n    \n    <p>This code will expire in 5 minutes for security \
        reasons.</p>\n    \n    <p>If you did not request this code, please ignore this \
        email.</p>\n    \n    <div class=\"footer\">\n        <p>This is an automated \
        message from BrokerX. Please do not reply to this email.</p>\n    </div>\n\
        </body>\n</html>\n            ",
        out,
    );
}

/// The message that carries `code`, as HTML.
pub open spec fn spec_email_body(code: Seq<char>) -> Seq<char> {
    spec_email_head() + code + spec_email_tail()
}

/// The message that carries `code`, as HTML.
pub fn email_body(code: &str) -> (s: String)
    ensures
        s@ == spec_email_body(code@),
{
    let mut out: Vec<char> = Vec::new();
    push_email_head(&mut out);
    push_str(code, &mut out);
    push_email_tail(&mut out);
    assert(out@ =~= spec_email_body(code@));
    crate::text::chars_to_string(&out)
}

/// The code issued to `email` when the draw is `number`.
pub open spec fn spec_code_for(email: Seq<char>, number: u32) -> Seq<char> {
    if email == spec_test_address() {
        "000000"@
    } else {
        spec_otp_code(number)
    }
}

/// Issues codes by mail. A code is filed as a challenge and its message is
/// put in the outbox; whoever sends the messages takes them from there and
/// reports a failure back, which withdraws the challenge.
#[derive(Debug)]
pub struct EmailOtpProvider {
    config: EmailConfig,
    challenges: ChallengeStore,
    challenge_duration: u64,
    outbox: Vec<OutgoingEmail>,
}

impl EmailOtpProvider {
    /// The challenges held, in the order of filing.
    pub closed spec fn challenges(&self) -> Seq<OtpChallengeView> {
        self.challenges@
    }

    /// The messages that await sending, oldest first.
    pub closed spec fn outbox(&self) -> Seq<OutgoingEmailView> {
        Seq::new(self.outbox@.len(), |i: int| self.outbox@[i]@)
    }

    /// How long a challenge stays valid, in microseconds.
    pub closed spec fn lifetime(&self) -> u64 {
        self.challenge_duration
    }

    /// The account from which codes are mailed.
    pub closed spec fn spec_config(&self) -> EmailConfig {
        self.config
    }

    /// A provider without challenges whose codes stay valid for five
    /// minutes.
    pub fn new(config: EmailConfig) -> (p: Self)
        ensures
            p.spec_config() == config,
            p.challenges() == Seq::<OtpChallengeView>::empty(),
            p.outbox() == Seq::<OutgoingEmailView>::empty(),
            p.lifetime() == CHALLENGE_LIFETIME_MICROS,
    {
        let p = Self {
            config,
            challenges: ChallengeStore::new(),
            challenge_duration: CHALLENGE_LIFETIME_MICROS,
            outbox: Vec::new(),
        };
        assert(p.outbox() =~= Seq::<OutgoingEmailView>::empty());
        p
    }

    /// The account from which codes are mailed.
    pub fn config(&self) -> (c: &EmailConfig)
        ensures
            *c == self.spec_config(),
    {
        &self.config
    }

    /// How long a challenge stays valid, in microseconds.
    pub fn challenge_duration(&self) -> (d: u64)
        ensures
            d == self.lifetime(),
    {
        self.challenge_duration
    }

    /// Sets how long challenges issued from now on stay valid, in
    /// microseconds.
    pub fn set_challenge_duration(&mut self, micros: u64)
        ensures
            final(self).lifetime() == micros,
            final(self).challenges() == old(self).challenges(),
            final(self).outbox() == old(self).outbox(),
            final(self).spec_config() == old(self).spec_config(),
    {
        self.challenge_duration = micros;
    }

    /// A random code: six digits, the first of which is not zero.
    pub fn generate_otp_code(&self) -> (code: String)
        ensures
            code@.len() == 6,
            exists|n: u32| OTP_LOW <= n < OTP_HIGH && code@ == #[trigger] spec_otp_code(n),
    {
        let n = random_in_range(OTP_LOW, OTP_HIGH);
        let code = otp_code(n);
        assert(code@ == spec_otp_code(n));
        code
    }

    /// What sending to `email` does, with `id` for the challenge, `number`
    /// for the draw of the code and `now` for the time: the challenge is
    /// filed and its message put last in the outbox.
    pub open spec fn spec_sent_with(
        &self,
        after: &Self,
        email: Seq<char>,
        id: u128,
        number: u32,
        now: Timestamp,
        r: Result<Seq<char>, MfaErrorView>,
    ) -> bool {
        let code = spec_code_for(email, number);
        let text = crate::sys::spec_id_text(id);
        &&& after.spec_config() == self.spec_config()
        &&& after.lifetime() == self.lifetime()
        &&& r == Ok::<Seq<char>, MfaErrorView>(text)
        &&& after.challenges() == spec_filed(
            self.challenges(),
            OtpChallengeView {
                id: text,
                user_email: email,
                code,
                verified: false,
                created_at: now,
                expires_at: spec_expiry(now, self.lifetime()),
            },
        )
        &&& after.outbox() == self.outbox().push(
            OutgoingEmailView {
                challenge_id: text,
                to: email,
                subject: spec_email_subject(),
                body: spec_email_body(code),
            },
        )
    }

    /// Issues a challenge for `user_email` under the identifier `id` at time
    /// `now`, with the code drawn as `number`.
    pub fn send_otp_with(&mut self, user_email: &str, id: u128, number: u32, now: Timestamp) -> (r:
        Result<String, MfaError>)
        ensures
            old(self).spec_sent_with(
                final(self),
                user_email@,
                id,
                number,
                now,
                spec_text_result(r),
            ),
    {
        let email = String::from_str(user_email);
        let test_address = String::from_str("test@test.com");
        let code = if same_text(&email, &test_address) {
            String::from_str("000000")
        } else {
            otp_code(number)
        };
        let challenge_id = id_text(id);
        let message = OutgoingEmail {
            challenge_id: challenge_id.clone(),
            to: email.clone(),
            subject: String::from_str("BrokerX - Your Verification Code"),
            body: email_body(code.as_str()),
        };
        let challenge = OtpChallenge {
            id: challenge_id.clone(),
            user_email: email,
            code,
            verified: false,
            created_at: now,
            expires_at: expiry(now, self.challenge_duration),
        };
        self.challenges.file(challenge);
        self.outbox.push(message);
        assert(self.outbox() =~= old(self).outbox().push(message@));
        Ok(challenge_id)
    }

    /// Hands over the messages that await sending, oldest first, and
    /// empties the outbox.
    pub fn take_outbox(&mut self) -> (messages: Vec<OutgoingEmail>)
        ensures
            Seq::new(messages@.len(), |i: int| messages@[i]@) == old(self).outbox(),
            final(self).outbox() == Seq::<OutgoingEmailView>::empty(),
            final(self).challenges() == old(self).challenges(),
            final(self).lifetime() == old(self).lifetime(),
            final(self).spec_config() == old(self).spec_config(),
    {
        let mut messages: Vec<OutgoingEmail> = Vec::new();
        std::mem::swap(&mut self.outbox, &mut messages);
        assert(self.outbox() =~= Seq::<OutgoingEmailView>::empty());
        assert(Seq::new(messages@.len(), |i: int| messages@[i]@) =~= old(self).outbox());
        messages
    }

    /// Records that the message of the challenge `challenge_id` could not
    /// be sent: the challenge is withdrawn, and the error to report is
    /// returned.
    pub fn send_failed(&mut self, challenge_id: &str, reason: String) -> (e: MfaError)
        ensures
            e@ == MfaErrorView::SendingFailed(reason@),
            final(self).challenges() == (match spec_first_challenge(
                old(self).challenges(),
                challenge_id@,
                0,
            ) {
                Some(i) => old(self).challenges().remove(i),
                None => old(self).challenges(),
            }),
            final(self).outbox() == old(self).outbox(),
            final(self).lifetime() == old(self).lifetime(),
            final(self).spec_config() == old(self).spec_config(),
    {
        let id = String::from_str(challenge_id);
        match self.challenges.find(&id) {
            Some(i) => {
                self.challenges.discard(i);
            },
            None => {},
        }
        MfaError::SendingFailed(reason)
    }

    /// Checks `code` for the challenge `challenge_id` at time `now`.
    pub fn verify_otp_at(&mut self, challenge_id: &str, code: &str, now: Timestamp) -> (r: Result<
        bool,
        MfaError,
    >)
        ensures
            old(self).spec_verified(final(self), challenge_id@, code@, now, spec_flag_result(r)),
    {
        let id = String::from_str(challenge_id);
        let i = match self.challenges.find(&id) {
            Some(i) => i,
            None => {
                return Err(MfaError::ChallengeNotFound);
            },
        };
        if now > self.challenges.at(i).expires_at {
            self.challenges.discard(i);
            return Err(MfaError::ChallengeExpired);
        }
        if self.challenges.at(i).verified {
            return Ok(true);
        }
        let given = String::from_str(code);
        if same_text(&self.challenges.at(i).code, &given) {
            self.challenges.mark_verified(i);
            Ok(true)
        } else {
            Err(MfaError::InvalidCode)
        }
    }

    /// The challenge `challenge_id`, unless it has expired at time `now`.
    pub fn get_challenge_at(&self, challenge_id: &str, now: Timestamp) -> (r: Result<
        OtpChallenge,
        MfaError,
    >)
        ensures
            self.spec_got(challenge_id@, now, spec_challenge_result(r)),
    {
        let id = String::from_str(challenge_id);
        match self.challenges.find(&id) {
            Some(i) => {
                let c = self.challenges.at(i);
                if now > c.expires_at {
                    Err(MfaError::ChallengeExpired)
                } else {
                    Ok(c.clone())
                }
            },
            None => Err(MfaError::ChallengeNotFound),
        }
    }
}

impl MfaProvider for EmailOtpProvider {
    open spec fn spec_sent(
        &self,
        after: &Self,
        email: Seq<char>,
        r: Result<Seq<char>, MfaErrorView>,
    ) -> bool {
        exists|id: u128, number: u32, now: Timestamp|
            id & ID_FORMAT_MASK == ID_FORMAT_RANDOM && OTP_LOW <= number < OTP_HIGH
                && #[trigger] self.spec_sent_with(after, email, id, number, now, r)
    }

    open spec fn spec_verified(
        &self,
        after: &Self,
        id: Seq<char>,
        code: Seq<char>,
        now: Timestamp,
        r: Result<bool, MfaErrorView>,
    ) -> bool {
        &&& after.spec_config() == self.spec_config()
        &&& after.lifetime() == self.lifetime()
        &&& after.outbox() == self.outbox()
        &&& match spec_first_challenge(self.challenges(), id, 0) {
            None => r == Err::<bool, MfaErrorView>(MfaErrorView::ChallengeNotFound)
                && after.challenges() == self.challenges(),
            Some(i) => {
                let c = self.challenges()[i];
                if now > c.expires_at {
                    r == Err::<bool, MfaErrorView>(MfaErrorView::ChallengeExpired)
                        && after.challenges() == self.challenges().remove(i)
                } else if c.verified {
                    r == Ok::<bool, MfaErrorView>(true) && after.challenges() == self.challenges()
                } else if c.code == code {
                    r == Ok::<bool, MfaErrorView>(true) && after.challenges()
                        == self.challenges().update(i, OtpChallengeView { verified: true, ..c })
                } else {
                    r == Err::<bool, MfaErrorView>(MfaErrorView::InvalidCode)
                        && after.challenges() == self.challenges()
                }
            },
        }
    }

    open spec fn spec_got(
        &self,
        id: Seq<char>,
        now: Timestamp,
        r: Result<OtpChallengeView, MfaErrorView>,
    ) -> bool {
        match spec_first_challenge(self.challenges(), id, 0) {
            Some(i) => {
                if now > self.challenges()[i].expires_at {
                    r == Err::<OtpChallengeView, MfaErrorView>(MfaErrorView::ChallengeExpired)
                } else {
                    r == Ok::<OtpChallengeView, MfaErrorView>(self.challenges()[i])
                }
            },
            None => r == Err::<OtpChallengeView, MfaErrorView>(MfaErrorView::ChallengeNotFound),
        }
    }

    fn send_otp(&mut self, user_email: &str) -> (r: Result<String, MfaError>) {
        let id = fresh_id();
        let number = random_in_range(OTP_LOW, OTP_HIGH);
        let now = now_micros();
        let r = self.send_otp_with(user_email, id, number, now);
        assert(old(self).spec_sent_with(self, user_email@, id, number, now, spec_text_result(r)));
        r
    }

    fn verify_otp(&mut self, challenge_id: &str, code: &str) -> (r: Result<bool, MfaError>) {
        let now = now_micros();
        let r = self.verify_otp_at(challenge_id, code, now);
        assert(old(self).spec_verified(self, challenge_id@, code@, now, spec_flag_result(r)));
        r
    }

    fn get_challenge(&self, challenge_id: &str) -> (r: Result<OtpChallenge, MfaError>) {
        let now = now_micros();
        let r = self.get_challenge_at(challenge_id, now);
        assert(self.spec_got(challenge_id@, now, spec_challenge_result(r)));
        r
    }
}

/// The second factor of signing in, in front of a provider.
#[derive(Debug)]
pub struct MfaService<P: MfaProvider> {
    provider: P,
}

impl<P: MfaProvider> MfaService<P> {
    /// The provider behind the service.
    pub closed spec fn spec_provider(&self) -> P {
        self.provider
    }

    /// A service in front of `provider`.
    pub fn new(provider: P) -> (s: Self)
        ensures
            s.spec_provider() == provider,
    {
        Self { provider }
    }

    /// The provider behind the service.
    pub fn provider(&self) -> (p: &P)
        ensures
            *p == self.spec_provider(),
    {
        &self.provider
    }

    /// Starts the second factor for a user by sending a code.
    pub fn initiate_mfa(&mut self, user_email: &str) -> (r: Result<String, MfaError>)
        ensures
            old(self).spec_provider().spec_sent(
                &final(self).spec_provider(),
                user_email@,
                spec_text_result(r),
            ),
    {
        self.provider.send_otp(user_email)
    }

    /// Checks the code that the user entered.
    pub fn verify_mfa(&mut self, challenge_id: &str, code: &str) -> (r: Result<bool, MfaError>)
        ensures
            exists|now: Timestamp| #[trigger]
                old(self).spec_provider().spec_verified(
                    &final(self).spec_provider(),
                    challenge_id@,
                    code@,
                    now,
                    spec_flag_result(r),
                ),
    {
        let ghost before = self.provider;
        let r = self.provider.verify_otp(challenge_id, code);
        proof {
            let now = choose|now: Timestamp| #[trigger]
                before.spec_verified(
                    &self.provider,
                    challenge_id@,
                    code@,
                    now,
                    spec_flag_result(r),
                );
            assert(old(self).spec_provider().spec_verified(
                &self.spec_provider(),
                challenge_id@,
                code@,
                now,
                spec_flag_result(r),
            ));
        }
        r
    }

    /// The challenge `challenge_id`.
    pub fn get_challenge(&self, challenge_id: &str) -> (r: Result<OtpChallenge, MfaError>)
        ensures
            exists|now: Timestamp| #[trigger]
                self.spec_provider().spec_got(challenge_id@, now, spec_challenge_result(r)),
    {
        let r = self.provider.get_challenge(challenge_id);
        proof {
            let now = choose|now: Timestamp| #[trigger]
                self.provider.spec_got(challenge_id@, now, spec_challenge_result(r));
            assert(self.spec_provider().spec_got(challenge_id@, now, spec_challenge_result(r)));
        }
        r
    }
}

impl MfaService<EmailOtpProvider> {
    /// Hands over the messages that await sending and empties the outbox.
    pub fn take_outbox(&mut self) -> (messages: Vec<OutgoingEmail>)
        ensures
            Seq::new(messages@.len(), |i: int| messages@[i]@) == old(self).spec_provider().outbox(),
            final(self).spec_provider().outbox() == Seq::<OutgoingEmailView>::empty(),
            final(self).spec_provider().challenges() == old(self).spec_provider().challenges(),
    {
        self.provider.take_outbox()
    }

    /// Records that the message of the challenge `challenge_id` could not
    /// be sent, and returns the error to report.
    pub fn send_failed(&mut self, challenge_id: &str, reason: String) -> (e: MfaError)
        ensures
            e@ == MfaErrorView::SendingFailed(reason@),
            final(self).spec_provider().challenges() == (match spec_first_challenge(
                old(self).spec_provider().challenges(),
                challenge_id@,
                0,
            ) {
                Some(i) => old(self).spec_provider().challenges().remove(i),
                None => old(self).spec_provider().challenges(),
            }),
    {
        self.provider.send_failed(challenge_id, reason)
    }
}

/// Makes services with the provider of choice.
#[derive(Debug)]
pub struct MfaServiceFactory;

impl MfaServiceFactory {
    /// A service that mails its codes from the account `config`.
    pub fn create_email_mfa_service(config: EmailConfig) -> (s: MfaService<EmailOtpProvider>)
        ensures
            s.spec_provider().spec_config() == config,
            s.spec_provider().challenges() == Seq::<OtpChallengeView>::empty(),
    {
        MfaService::new(EmailOtpProvider::new(config))
    }
}

} // verus!
