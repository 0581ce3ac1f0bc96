//! A stand-in for signing in and registering, with one built-in user.

use crate::pre_trade::same_text;
use crate::user::{byte_len, spec_password_len, MIN_PASSWORD_LEN};
use vstd::prelude::*;
use vstd::string::StringExecFns;

verus! {

/// A signed-in user.
#[derive(Debug)]
pub struct User {
    pub id: u32,
    pub username: String,
    pub email: String,
}

/// The plain value of a [`User`].
pub struct UserView {
    pub id: u32,
    pub username: Seq<char>,
    pub email: Seq<char>,
}

impl View for User {
    type V = UserView;

    open spec fn view(&self) -> UserView {
        UserView { id: self.id, username: self.username@, email: self.email@ }
    }
}

impl Clone for User {
    fn clone(&self) -> (r: Self)
        ensures
            r == *self,
    {
        User { id: self.id, username: self.username.clone(), email: self.email.clone() }
    }
}

/// The sign-in form.
#[derive(Debug)]
pub struct LoginForm {
    pub username: String,
    pub password: String,
}

/// The registration form.
#[derive(Debug)]
pub struct RegisterForm {
    pub username: String,
    pub email: String,
    pub password: String,
    pub confirm_password: String,
}

/// A session: its key and the user it belongs to.
#[derive(Debug)]
pub struct Session {
    pub key: String,
    pub user: User,
}

/// The sessions that are open.
#[derive(Debug)]
pub struct SessionStore {
    sessions: Vec<Session>,
}

impl SessionStore {
    /// The number of open sessions.
    pub closed spec fn spec_len(&self) -> nat {
        self.sessions@.len()
    }

    /// The number of open sessions.
    pub fn len(&self) -> (n: usize)
        ensures
            n == self.spec_len(),
    {
        self.sessions.len()
    }
}

/// A store without sessions.
pub fn create_session_store() -> (store: SessionStore)
    ensures
        store.spec_len() == 0,
{
    SessionStore { sessions: Vec::new() }
}

/// Who signs in as `username` with `password`: the built-in user `demo`
/// with the password `password`, and nobody else.
pub open spec fn spec_authenticate_user(username: Seq<char>, password: Seq<char>) -> Option<
    UserView,
> {
    if username == "demo"@ && password == "password"@ {
        Some(UserView { id: 1, username, email: "demo@example.com"@ })
    } else {
        None
    }
}

/// Who signs in as `username` with `password`.
pub fn authenticate_user(username: &str, password: &str) -> (r: Option<User>)
    ensures
        match r {
            Some(u) => spec_authenticate_user(username@, password@) == Some(u@),
            None => spec_authenticate_user(username@, password@) is None,
        },
{
    let name = String::from_str(username);
    let given = String::from_str(password);
    let demo = String::from_str("demo");
    let secret = String::from_str("password");
    if same_text(&name, &demo) && same_text(&given, &secret) {
        Some(User { id: 1, username: name, email: String::from_str("demo@example.com") })
    } else {
        None
    }
}

/// The user that a registration form makes, or what is wrong with the
/// form: passwords that differ, then an empty name or address or a
/// password of fewer than six bytes.
pub open spec fn spec_register_user(form: RegisterForm) -> Result<UserView, Seq<char>> {
    if form.password@ != form.confirm_password@ {
        Err("Passwords don't match"@)
    } else if form.username@.len() == 0 || form.email@.len() == 0 || spec_password_len(
        form.password@,
    ) < MIN_PASSWORD_LEN {
        Err("Invalid form data"@)
    } else {
        Ok(UserView { id: 2, username: form.username@, email: form.email@ })
    }
}

/// The user that a registration form makes, or what is wrong with the
/// form.
pub fn register_user(form: &RegisterForm) -> (r: Result<User, String>)
    ensures
        match r {
            Ok(u) => spec_register_user(*form) == Ok::<UserView, Seq<char>>(u@),
            Err(e) => spec_register_user(*form) == Err::<UserView, Seq<char>>(e@),
        },
{
    if !same_text(&form.password, &form.confirm_password) {
        return Err(String::from_str("Passwords don't match"));
    }
    if form.username.as_str().is_empty() || form.email.as_str().is_empty() || byte_len(
        form.password.as_str(),
    ) < MIN_PASSWORD_LEN {
        return Err(String::from_str("Invalid form data"));
    }
    Ok(User { id: 2, username: form.username.clone(), email: form.email.clone() })
}

} // verus!
