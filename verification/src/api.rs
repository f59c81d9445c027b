//! The three operations as a caller sees them: register, log in, log out.
//!
//! Each takes what the caller sent and the executor to work on, and gives
//! the payload of a success or the one failure to report. How a request
//! arrives and how the answer leaves is not decided here.

use crate::db::{
    is_token, DbExecutor, Login, Logout, Register, Session, SessionRow, User, UserRow,
};
use crate::errors::ServiceError;
use crate::hasher::{cost_supported, password_matches, HASH_LEN};
use chrono::NaiveDateTime;
use vstd::prelude::*;

verus! {

/// What a user sends to register.
#[derive(Debug, PartialEq, Eq)]
pub struct UserCreds {
    pub email: String,
    pub password: String,
}

/// What a user sends to log in.
#[derive(Debug, PartialEq, Eq)]
pub struct UserInfo {
    pub email: String,
    pub password: String,
}

/// What leaves the service of an account: everything but the password hash.
#[derive(Debug, PartialEq, Eq)]
pub struct Account {
    pub user_id: i32,
    pub email: String,
    pub created_at: NaiveDateTime,
}

impl User {
    /// The part of the account that may be shown to the outside.
    pub fn account(&self) -> (shown: Account)
        ensures
            shown.user_id == self.user_id,
            shown.email@ == self.email@,
            shown.created_at == self.created_at,
    {
        Account {
            user_id: self.user_id,
            email: self.email.clone(),
            created_at: self.created_at,
        }
    }
}

/// The rules that a registration has to meet before the executor sees it.
///
/// A policy says which passwords are strong enough and which emails are well
/// formed. What it refuses is reported as a weak password or an invalid
/// email.
pub trait CredentialPolicy {
    /// Whether the password is strong enough.
    fn is_password_good(&self, pw: &str) -> bool;

    /// Whether the email is well formed.
    fn is_email_valid(&self, email: &str) -> bool;
}

/// The policy that lets every password and every email through.
#[derive(Debug, Clone, Copy)]
pub struct Permissive;

impl CredentialPolicy for Permissive {
    fn is_password_good(&self, pw: &str) -> (good: bool)
        ensures
            good,
    {
        is_password_good(pw)
    }

    fn is_email_valid(&self, email: &str) -> (valid: bool)
        ensures
            valid,
    {
        is_email_valid(email)
    }
}

/// Whether the policy may find the password good (`answer` true) or bad.
pub open spec fn may_find_password<P: CredentialPolicy>(
    policy: &P,
    password: Seq<char>,
    answer: bool,
) -> bool {
    exists|pw: &str| pw@ == password && call_ensures(P::is_password_good, (policy, pw), answer)
}

/// Whether the policy may find the email valid (`answer` true) or not.
pub open spec fn may_find_email<P: CredentialPolicy>(
    policy: &P,
    email: Seq<char>,
    answer: bool,
) -> bool {
    exists|text: &str| text@ == email && call_ensures(P::is_email_valid, (policy, text), answer)
}

/// The password check of the permissive policy: every password is good.
pub fn is_password_good(pw: &str) -> (good: bool)
    ensures
        good,
{
    true
}

/// The email check of the permissive policy: every email is valid.
pub fn is_email_valid(email: &str) -> (valid: bool)
    ensures
        valid,
{
    true
}

/// The answer to a request for the root: a greeting.
pub fn index() -> (body: &'static str)
    ensures
        body@ == "hello world"@,
{
    "hello world"
}

/// What the answers of a policy mean for a registration: a password that
/// is not good is a weak password, whatever the email; after that, an email
/// that is not valid is an invalid email.
pub fn policy_outcome(password_good: bool, email_valid: bool) -> (outcome: Result<
    (),
    ServiceError,
>)
    ensures
        outcome == if !password_good {
            Err::<(), ServiceError>(ServiceError::WeakPassword)
        } else if !email_valid {
            Err::<(), ServiceError>(ServiceError::InvalidEmail)
        } else {
            Ok::<(), ServiceError>(())
        },
{
    if !password_good {
        Err(ServiceError::WeakPassword)
    } else if !email_valid {
        Err(ServiceError::InvalidEmail)
    } else {
        Ok(())
    }
}

/// Holds a registration against the policy and, where it passes, makes the
/// message for the executor. The password is looked at first, and the email
/// only where the password is good.
///
/// What the policy answers is its own business, so the contract speaks of
/// the answers that the policy may give: an error comes with an answer that
/// explains it.
pub fn check_registration<P: CredentialPolicy>(policy: &P, user_info: UserCreds) -> (msg: Result<
    Register,
    ServiceError,
>)
    ensures
        match msg {
            Ok(register) => {
                &&& may_find_password(policy, user_info.password@, true)
                &&& may_find_email(policy, user_info.email@, true)
                &&& register.email@ == user_info.email@
                &&& register.password@ == user_info.password@
            },
            Err(e) => {
                ||| e == ServiceError::WeakPassword && may_find_password(
                    policy,
                    user_info.password@,
                    false,
                )
                ||| e == ServiceError::InvalidEmail && may_find_password(
                    policy,
                    user_info.password@,
                    true,
                ) && may_find_email(policy, user_info.email@, false)
            },
        },
{
    let password_good = policy.is_password_good(user_info.password.as_str());
    let email_valid = password_good && policy.is_email_valid(user_info.email.as_str());
    match policy_outcome(password_good, email_valid) {
        Ok(()) => Ok(Register { email: user_info.email, password: user_info.password }),
        Err(e) => Err(e),
    }
}

/// Registers an account.
///
/// A password that the policy refuses is a weak password; after that, an
/// email that the policy refuses or that an account already has is an
/// invalid email; anything else that goes wrong is an internal error. A
/// failure changes nothing. The account that comes back is stored as
/// `DbView::register` says, under the next id, with a hash that matches the
/// password.
pub fn register_user<P: CredentialPolicy>(
    policy: &P,
    db: &mut DbExecutor,
    user_info: UserCreds,
) -> (created: Result<User, ServiceError>)
    requires
        old(db).wf(),
    ensures
        final(db).wf(),
        final(db).hasher() == old(db).hasher(),
        match created {
            Ok(user) => {
                &&& may_find_password(policy, user_info.password@, true)
                &&& may_find_email(policy, user_info.email@, true)
                &&& user@.email == user_info.email@
                &&& user@.password.len() == HASH_LEN
                &&& password_matches(user_info.password@, user@.password)
                &&& final(db)@ == old(db)@.register(
                    user_info.email@,
                    user@.password,
                    user@.created_at,
                ).0
                &&& Ok::<UserRow, ServiceError>(user@) == old(db)@.register(
                    user_info.email@,
                    user@.password,
                    user@.created_at,
                ).1
                &&& user@.user_id == old(db)@.users.next_id
                &&& final(db)@.credentials_match(user_info.email@, user_info.password@)
            },
            Err(e) => {
                &&& final(db)@ == old(db)@
                &&& match e {
                    ServiceError::WeakPassword => may_find_password(
                        policy,
                        user_info.password@,
                        false,
                    ),
                    ServiceError::InvalidEmail => may_find_password(
                        policy,
                        user_info.password@,
                        true,
                    ) && (may_find_email(policy, user_info.email@, false) || old(
                        db,
                    )@.users.rows.dom().contains(user_info.email@)),
                    ServiceError::InternalError => may_find_password(
                        policy,
                        user_info.password@,
                        true,
                    ) && may_find_email(policy, user_info.email@, true) && !old(
                        db,
                    )@.users.rows.dom().contains(user_info.email@),
                    _ => false,
                }
            },
        },
        !cost_supported(old(db).hasher().cost()) ==> created is Err,
{
    match check_registration(policy, user_info) {
        Ok(msg) => db.handle_register(msg),
        Err(e) => Err(e),
    }
}

/// Logs an account in and gives it its one session.
///
/// An unknown email and a wrong password are both invalid credentials, and
/// change nothing. The session that comes back has a fresh token, and the
/// tables changed as `DbView::login` says for its token and time.
pub fn login_user(db: &mut DbExecutor, login: UserInfo) -> (opened: Result<Session, ServiceError>)
    requires
        old(db).wf(),
    ensures
        final(db).wf(),
        final(db).hasher() == old(db).hasher(),
        match opened {
            Ok(session) => {
                &&& is_token(session@.session_id)
                &&& final(db)@ == old(db)@.login(
                    login.email@,
                    login.password@,
                    session@.session_id,
                    session@.created_at,
                ).0
                &&& Ok::<SessionRow, ServiceError>(session@) == old(db)@.login(
                    login.email@,
                    login.password@,
                    session@.session_id,
                    session@.created_at,
                ).1
                &&& session@.user_id == old(db)@.users.rows[login.email@].user_id
                &&& final(db)@.sessions.of_user(session@.user_id) == set![session@.session_id]
            },
            Err(e) => {
                &&& final(db)@ == old(db)@
                &&& e == ServiceError::InvalidCredentials <==> !old(db)@.credentials_match(
                    login.email@,
                    login.password@,
                )
                &&& e == ServiceError::InvalidCredentials || e == ServiceError::InternalError
            },
        },
        old(db)@.credentials_match(login.email@, login.password@) && old(db)@.only_sessions_of(
            old(db)@.users.rows[login.email@].user_id,
        ) ==> opened is Ok,
{
    db.handle_login(Login { email: login.email, password: login.password })
}

/// Logs a session out. It succeeds once for a session that a login handed
/// out; a token that is not live is an invalid session.
pub fn logout_user(db: &mut DbExecutor, logout: Session) -> (outcome: Result<(), ServiceError>)
    requires
        old(db).wf(),
    ensures
        final(db).wf(),
        final(db).hasher() == old(db).hasher(),
        final(db)@ == old(db)@.logout(logout.session_id@).0,
        outcome == old(db)@.logout(logout.session_id@).1,
        outcome is Ok <==> old(db)@.is_live(logout.session_id@),
        !final(db)@.is_live(logout.session_id@),
{
    db.handle_logout(Logout { session: logout })
}

} // verus!
