//! What holds of the operations taken together, whatever the tables hold.
//!
//! The theorems speak of `DbView`, the mathematical state that the contracts
//! of the executor are stated over. What an operation draws from outside is
//! a parameter here: whichever hash, token and time it is, the theorem holds
//! of it.

use crate::db::{DbView, SessionRow};
use crate::errors::ServiceError;
use crate::hasher::password_matches;
use chrono::NaiveDateTime;
use vstd::prelude::*;

verus! {

/// A token and a time, as one login draws them.
pub struct Draw {
    pub session_id: Seq<char>,
    pub created_at: NaiveDateTime,
}

/// One piece of work for the executor, with what it draws from outside: the
/// hash of a registration, and the token and the time of a login.
pub enum Request {
    Register { email: Seq<char>, password_hash: Seq<u8>, created_at: NaiveDateTime },
    Login {
        email: Seq<char>,
        password: Seq<char>,
        session_id: Seq<char>,
        created_at: NaiveDateTime,
    },
    Logout { session_id: Seq<char> },
}

/// Whether the request is a login that draws the token.
pub open spec fn draws_token(request: Request, token: Seq<char>) -> bool {
    request matches Request::Login { session_id, .. } && session_id == token
}

impl DbView {
    /// The tables after one request is served.
    pub open spec fn serve(self, request: Request) -> DbView {
        match request {
            Request::Register { email, password_hash, created_at } => self.register(
                email,
                password_hash,
                created_at,
            ).0,
            Request::Login { email, password, session_id, created_at } => self.login(
                email,
                password,
                session_id,
                created_at,
            ).0,
            Request::Logout { session_id } => self.logout(session_id).0,
        }
    }

    /// The tables after the requests are served one after the other.
    pub open spec fn serve_all(self, requests: Seq<Request>) -> DbView
        decreases requests.len(),
    {
        if requests.len() == 0 {
            self
        } else {
            self.serve_all(requests.drop_last()).serve(requests.last())
        }
    }

    /// The tables after one login of the account for each draw, in the order
    /// of the draws.
    pub open spec fn logins(
        self,
        email: Seq<char>,
        password: Seq<char>,
        draws: Seq<Draw>,
    ) -> DbView
        decreases draws.len(),
    {
        if draws.len() == 0 {
            self
        } else {
            self.logins(email, password, draws.drop_last()).login(
                email,
                password,
                draws.last().session_id,
                draws.last().created_at,
            ).0
        }
    }

    /// The token of the last of those logins that succeeded, if one did.
    pub open spec fn last_granted(
        self,
        email: Seq<char>,
        password: Seq<char>,
        draws: Seq<Draw>,
    ) -> Option<Seq<char>>
        decreases draws.len(),
    {
        if draws.len() == 0 {
            None
        } else if self.logins(email, password, draws.drop_last()).login(
            email,
            password,
            draws.last().session_id,
            draws.last().created_at,
        ).1 is Ok {
            Some(draws.last().session_id)
        } else {
            self.last_granted(email, password, draws.drop_last())
        }
    }
}

/// The tables with no account and no session satisfy the constraints.
pub proof fn lemma_empty_wf()
    ensures
        DbView::empty().wf(),
{
}

/// Whatever requests are served, in whatever order, the constraints hold
/// after each of them: every session belongs to an account, and no account
/// ever has two live sessions.
pub proof fn lemma_serve_all_wf(s: DbView, requests: Seq<Request>)
    requires
        s.wf(),
    ensures
        s.serve_all(requests).wf(),
    decreases requests.len(),
{
    if requests.len() > 0 {
        let before = s.serve_all(requests.drop_last());
        lemma_serve_all_wf(s, requests.drop_last());
        match requests.last() {
            Request::Register { email, password_hash, created_at } => {
                before.lemma_register_wf(email, password_hash, created_at);
            },
            Request::Login { email, password, session_id, created_at } => {
                before.lemma_login_wf(email, password, session_id, created_at);
            },
            Request::Logout { session_id } => {
                before.lemma_logout_wf(session_id);
            },
        }
    }
}

/// No operation changes or removes an account: whatever was registered
/// stays as it was created, so credentials that match go on matching.
pub proof fn lemma_accounts_are_kept(s: DbView, known: Seq<char>, request: Request)
    requires
        s.users.rows.dom().contains(known),
    ensures
        s.serve(request).users.rows.dom().contains(known),
        s.serve(request).users.rows[known] == s.users.rows[known],
        forall|secret: Seq<char>| #[trigger]
            s.credentials_match(known, secret) ==> s.serve(request).credentials_match(
                known,
                secret,
            ),
{
}

/// A registration gives the account an id that no account had before, and
/// every later registration gives a larger one.
pub proof fn lemma_ids_are_fresh(
    s: DbView,
    email: Seq<char>,
    password_hash: Seq<u8>,
    at: NaiveDateTime,
    later_email: Seq<char>,
    later_hash: Seq<u8>,
    later_at: NaiveDateTime,
)
    requires
        s.wf(),
        s.register(email, password_hash, at).1 is Ok,
    ensures
        ({
            let (registered, account) = s.register(email, password_hash, at);
            let later = registered.register(later_email, later_hash, later_at).1;
            &&& account->Ok_0.user_id == s.users.next_id
            &&& !s.users.has_id(account->Ok_0.user_id)
            &&& registered.sessions == s.sessions
            &&& later is Ok ==> later->Ok_0.user_id > account->Ok_0.user_id
        }),
{
}

/// An account that was registered with a password can log in with it, and
/// the session refers to the account's id.
///
/// The hash is any that matches the password, as every hash does that the
/// hasher makes of it. The token is any that is not live.
pub proof fn lemma_register_then_login(
    s: DbView,
    email: Seq<char>,
    password: Seq<char>,
    password_hash: Seq<u8>,
    registered_at: NaiveDateTime,
    session_id: Seq<char>,
    logged_in_at: NaiveDateTime,
)
    requires
        s.wf(),
        password_matches(password, password_hash),
        s.register(email, password_hash, registered_at).1 is Ok,
        !s.is_live(session_id),
    ensures
        ({
            let (registered, account) = s.register(email, password_hash, registered_at);
            let (logged_in, session) = registered.login(email, password, session_id, logged_in_at);
            &&& session is Ok
            &&& session->Ok_0.user_id == account->Ok_0.user_id
            &&& session->Ok_0.session_id == session_id
            &&& logged_in.is_live(session_id)
            &&& logged_in.sessions.of_user(account->Ok_0.user_id) == set![session_id]
        }),
{
    let (registered, account) = s.register(email, password_hash, registered_at);
    let user_id = account->Ok_0.user_id;
    assert(registered.users.rows.dom().contains(email));
    assert(registered.users.has_id(user_id));
    let (logged_in, session) = registered.login(email, password, session_id, logged_in_at);
    assert(logged_in.sessions.of_user(user_id) =~= set![session_id]);
}

/// A login with the email of an account and a wrong password fails exactly
/// as a login with an email that no account has: with the same error, and
/// without a change.
pub proof fn lemma_login_failures_alike(
    s: DbView,
    known_email: Seq<char>,
    wrong_password: Seq<char>,
    unknown_email: Seq<char>,
    any_password: Seq<char>,
    session_id: Seq<char>,
    at: NaiveDateTime,
)
    requires
        s.users.rows.dom().contains(known_email),
        !password_matches(wrong_password, s.users.rows[known_email].password),
        !s.users.rows.dom().contains(unknown_email),
    ensures
        s.login(known_email, wrong_password, session_id, at) == (
            s,
            Err::<SessionRow, ServiceError>(ServiceError::InvalidCredentials),
        ),
        s.login(unknown_email, any_password, session_id, at) == s.login(
            known_email,
            wrong_password,
            session_id,
            at,
        ),
{
}

/// After a successful login, the account has exactly one live session: the
/// one that the login returned.
pub proof fn lemma_login_leaves_one_session(
    s: DbView,
    email: Seq<char>,
    password: Seq<char>,
    session_id: Seq<char>,
    at: NaiveDateTime,
)
    requires
        s.login(email, password, session_id, at).1 is Ok,
    ensures
        ({
            let (after, session) = s.login(email, password, session_id, at);
            &&& session->Ok_0 == (SessionRow {
                session_id,
                user_id: s.users.rows[email].user_id,
                created_at: at,
            })
            &&& after.sessions.rows[session_id] == session->Ok_0
            &&& after.sessions.of_user(s.users.rows[email].user_id) == set![session_id]
            &&& after.users == s.users
        }),
{
    let after = s.login(email, password, session_id, at).0;
    assert(after.sessions.of_user(s.users.rows[email].user_id) =~= set![session_id]);
}

/// A login touches the sessions of no other account.
pub proof fn lemma_login_spares_others(
    s: DbView,
    email: Seq<char>,
    password: Seq<char>,
    session_id: Seq<char>,
    at: NaiveDateTime,
    other: i32,
)
    requires
        other != s.users.rows[email].user_id,
    ensures
        s.login(email, password, session_id, at).0.sessions.of_user(other) == s.sessions.of_user(
            other,
        ),
        forall|k: Seq<char>| #[trigger]
            s.sessions.of_user(other).contains(k) ==> s.login(
                email,
                password,
                session_id,
                at,
            ).0.sessions.rows[k] == s.sessions.rows[k],
{
    let after = s.login(email, password, session_id, at).0;
    assert(after.sessions.of_user(other) =~= s.sessions.of_user(other));
}

/// Of two logins of one account that succeed one after the other with
/// different tokens, the second ends the session of the first: the first
/// token is no longer live, and a logout with it is an invalid session.
pub proof fn lemma_second_login_ends_first(
    s: DbView,
    email: Seq<char>,
    password: Seq<char>,
    first: Draw,
    second: Draw,
)
    requires
        s.login(email, password, first.session_id, first.created_at).1 is Ok,
        s.login(email, password, first.session_id, first.created_at).0.login(
            email,
            password,
            second.session_id,
            second.created_at,
        ).1 is Ok,
        first.session_id != second.session_id,
    ensures
        ({
            let once = s.login(email, password, first.session_id, first.created_at).0;
            let twice = once.login(email, password, second.session_id, second.created_at).0;
            &&& once.is_live(first.session_id)
            &&& !twice.is_live(first.session_id)
            &&& twice.is_live(second.session_id)
            &&& twice.logout(first.session_id) == (
                twice,
                Err::<(), ServiceError>(ServiceError::InvalidSession),
            )
        }),
{
}

/// A logout with a token that is not live is an invalid session and changes
/// nothing. A logout with a live token succeeds, ends that session and no
/// other, and a second logout with the token is an invalid session.
pub proof fn lemma_logout_once(s: DbView, session_id: Seq<char>)
    ensures
        !s.is_live(session_id) ==> s.logout(session_id) == (
            s,
            Err::<(), ServiceError>(ServiceError::InvalidSession),
        ),
        s.is_live(session_id) ==> ({
            let (after, outcome) = s.logout(session_id);
            &&& outcome == Ok::<(), ServiceError>(())
            &&& !after.is_live(session_id)
            &&& after.users == s.users
            &&& forall|k: Seq<char>|
                k != session_id ==> (#[trigger] after.is_live(k) <==> s.is_live(k))
            &&& forall|k: Seq<char>| #[trigger]
                after.is_live(k) ==> after.sessions.rows[k] == s.sessions.rows[k]
            &&& after.logout(session_id) == (
                after,
                Err::<(), ServiceError>(ServiceError::InvalidSession),
            )
        }),
{
}

/// A token becomes live only by a login that draws it and succeeds.
pub proof fn lemma_live_only_by_login(s: DbView, request: Request, token: Seq<char>)
    requires
        !s.is_live(token),
        s.serve(request).is_live(token),
    ensures
        request matches Request::Login { email, password, session_id, created_at }
            && session_id == token && s.login(email, password, session_id, created_at).1 is Ok,
{
}

/// A token that was not live, and that no login among the requests drew, is
/// not live after them: a logout with it is an invalid session.
pub proof fn lemma_token_never_issued(s: DbView, requests: Seq<Request>, token: Seq<char>)
    requires
        !s.is_live(token),
        forall|i: int| 0 <= i < requests.len() ==> !draws_token(#[trigger] requests[i], token),
    ensures
        !s.serve_all(requests).is_live(token),
        s.serve_all(requests).logout(token) == (
            s.serve_all(requests),
            Err::<(), ServiceError>(ServiceError::InvalidSession),
        ),
    decreases requests.len(),
{
    if requests.len() > 0 {
        let front = requests.drop_last();
        assert forall|i: int| 0 <= i < front.len() implies !draws_token(
            #[trigger] front[i],
            token,
        ) by {
            assert(front[i] == requests[i]);
        }
        lemma_token_never_issued(s, front, token);
        assert(!draws_token(requests[requests.len() - 1], token));
    }
}

/// Logins of one account, whether they succeed or not, change no account
/// and leave the sessions of every other account as they were.
pub proof fn lemma_logins_spare_others(
    s: DbView,
    email: Seq<char>,
    password: Seq<char>,
    draws: Seq<Draw>,
    other: i32,
)
    requires
        other != s.users.rows[email].user_id,
    ensures
        s.logins(email, password, draws).users == s.users,
        s.logins(email, password, draws).sessions.of_user(other) == s.sessions.of_user(other),
        forall|k: Seq<char>| #[trigger]
            s.sessions.of_user(other).contains(k) ==> s.logins(
                email,
                password,
                draws,
            ).sessions.rows[k] == s.sessions.rows[k],
    decreases draws.len(),
{
    if draws.len() > 0 {
        let before = s.logins(email, password, draws.drop_last());
        let last = draws.last();
        lemma_logins_spare_others(s, email, password, draws.drop_last(), other);
        lemma_login_spares_others(before, email, password, last.session_id, last.created_at, other);
    }
}

/// Any number of logins of one account, served one after the other in
/// whatever order, leave the account with exactly one live session as soon
/// as one of them succeeds: the session of the last login that succeeded.
/// Where none succeeds, the tables are as they were.
pub proof fn lemma_logins_leave_one_session(
    s: DbView,
    email: Seq<char>,
    password: Seq<char>,
    draws: Seq<Draw>,
)
    ensures
        s.logins(email, password, draws).users == s.users,
        match s.last_granted(email, password, draws) {
            Some(token) => s.logins(email, password, draws).sessions.of_user(
                s.users.rows[email].user_id,
            ) == set![token],
            None => s.logins(email, password, draws) == s,
        },
    decreases draws.len(),
{
    if draws.len() > 0 {
        let before = s.logins(email, password, draws.drop_last());
        let last = draws.last();
        lemma_logins_leave_one_session(s, email, password, draws.drop_last());
        if before.login(email, password, last.session_id, last.created_at).1 is Ok {
            lemma_login_leaves_one_session(
                before,
                email,
                password,
                last.session_id,
                last.created_at,
            );
        }
    }
}

/// Where the credentials match and no token that is drawn is held by a
/// session of another account, every one of the logins succeeds: two or
/// more of them, in whatever order they are served, leave exactly one live
/// session of the account, that of the login that was served last.
pub proof fn lemma_logins_without_collision(
    s: DbView,
    email: Seq<char>,
    password: Seq<char>,
    draws: Seq<Draw>,
)
    requires
        s.credentials_match(email, password),
        draws.len() >= 1,
        forall|i: int|
            0 <= i < draws.len() && s.is_live((#[trigger] draws[i]).session_id)
                ==> s.sessions.rows[draws[i].session_id].user_id == s.users.rows[email].user_id,
    ensures
        s.last_granted(email, password, draws) == Some(draws.last().session_id),
        s.logins(email, password, draws).sessions.of_user(s.users.rows[email].user_id) == set![
            draws.last().session_id,
        ],
{
    let user_id = s.users.rows[email].user_id;
    let before = s.logins(email, password, draws.drop_last());
    let last = draws.last();
    lemma_logins_leave_one_session(s, email, password, draws.drop_last());
    lemma_logins_leave_one_session(s, email, password, draws);
    assert(before.users.has_id(user_id));
    // A session of another account that held the token of the last login
    // would have held it from the start.
    if before.is_live(last.session_id) && before.sessions.rows[last.session_id].user_id
        != user_id {
        let other = before.sessions.rows[last.session_id].user_id;
        lemma_logins_spare_others(s, email, password, draws.drop_last(), other);
        assert(before.sessions.of_user(other).contains(last.session_id));
        assert(s.sessions.of_user(other).contains(last.session_id));
        assert(draws[draws.len() - 1] == last);
    }
}

} // verus!
