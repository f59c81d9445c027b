//! The rows of the two tables, the messages that ask for work on them, and
//! the executor that does the work.

use crate::errors::ServiceError;
use crate::hasher::{cost_supported, password_matches, Hasher, HASH_LEN};
use crate::lifecycle::lemma_login_leaves_one_session;
use crate::schema::{Sessions, SessionsView, Users, UsersView};
use crate::table::Keyed;
use chrono::NaiveDateTime;
use vstd::prelude::*;

verus! {

/// `chrono::NaiveDateTime`, a date and a time without a zone. A row carries
/// the time it was given; nothing is read from it.
#[verifier::external_type_specification]
#[verifier::external_body]
pub struct ExNaiveDateTime(chrono::NaiveDateTime);

/// A registered account, as the `users` table holds it.
#[derive(Debug, PartialEq, Eq)]
pub struct User {
    /// Assigned by the table when the row is created, and never reused.
    pub user_id: i32,
    /// The email the user signed up with: the natural key, compared exactly.
    pub email: String,
    /// The bytes the credential hasher made of the password; they hold the
    /// salt too. Never the password itself.
    pub password: Vec<u8>,
    /// When the account was created.
    pub created_at: NaiveDateTime,
}

/// What a `User` is to the contracts.
pub struct UserRow {
    pub user_id: i32,
    pub email: Seq<char>,
    pub password: Seq<u8>,
    pub created_at: NaiveDateTime,
}

impl View for User {
    type V = UserRow;

    open spec fn view(&self) -> UserRow {
        UserRow {
            user_id: self.user_id,
            email: self.email@,
            password: self.password@,
            created_at: self.created_at,
        }
    }
}

impl Keyed for UserRow {
    open spec fn key(&self) -> Seq<char> {
        self.email
    }
}

impl Clone for User {
    fn clone(&self) -> (copy: User)
        ensures
            copy@ == self@,
    {
        let password = self.password.clone();
        assert(password@ =~= self.password@);
        User {
            user_id: self.user_id,
            email: self.email.clone(),
            password,
            created_at: self.created_at,
        }
    }
}

/// The proof of a login, handed to the user and kept in the `sessions`
/// table until a logout or the account's next login.
#[derive(Debug, PartialEq, Eq)]
pub struct Session {
    /// The token: fresh for each login, and the key of the row.
    pub session_id: String,
    /// The account that logged in.
    pub user_id: i32,
    /// When the login happened.
    pub created_at: NaiveDateTime,
}

/// What a `Session` is to the contracts.
pub struct SessionRow {
    pub session_id: Seq<char>,
    pub user_id: i32,
    pub created_at: NaiveDateTime,
}

impl View for Session {
    type V = SessionRow;

    open spec fn view(&self) -> SessionRow {
        SessionRow {
            session_id: self.session_id@,
            user_id: self.user_id,
            created_at: self.created_at,
        }
    }
}

impl Keyed for SessionRow {
    open spec fn key(&self) -> Seq<char> {
        self.session_id
    }
}

impl Clone for Session {
    fn clone(&self) -> (copy: Session)
        ensures
            copy@ == self@,
    {
        Session {
            session_id: self.session_id.clone(),
            user_id: self.user_id,
            created_at: self.created_at,
        }
    }
}

/// Asks for a new account.
#[derive(Debug, PartialEq, Eq)]
pub struct Register {
    pub email: String,
    pub password: String,
}

/// Asks for a session for an existing account.
#[derive(Debug, PartialEq, Eq)]
pub struct Login {
    pub email: String,
    pub password: String,
}

/// Asks for the end of a session. Only the token of the session counts.
#[derive(Debug, PartialEq, Eq)]
pub struct Logout {
    pub session: Session,
}

/// An account that is ready to be stored: the password is hashed and the
/// time is taken. The table adds the id.
#[derive(Debug, PartialEq, Eq)]
pub struct NewUser {
    pub email: String,
    pub password: Vec<u8>,
    pub created_at: NaiveDateTime,
}

/// Whether `c` is one of `0`..`9`, `a`..`f`.
pub open spec fn is_lower_hex(c: char) -> bool {
    ('0' as u32 <= c as u32 <= '9' as u32) || ('a' as u32 <= c as u32 <= 'f' as u32)
}

/// The shape of every token that a login hands out: 32 lower-case
/// hexadecimal digits.
pub open spec fn is_token(text: Seq<char>) -> bool {
    text.len() == 32 && forall|i: int| 0 <= i < text.len() ==> is_lower_hex(#[trigger] text[i])
}

/// Draws a version 4 UUID with `uuid::Uuid::new_v4` and writes it with
/// `to_simple`, without hyphens.
///
/// Trusted: the text is 32 lower-case hexadecimal digits. Which ones is left
/// to the operating system's random source; the call panics if that source
/// fails.
#[verifier::external_body]
fn fresh_token() -> (token: String)
    ensures
        is_token(token@),
{
    uuid::Uuid::new_v4().to_simple().to_string()
}

/// Reads the clock with `chrono::Local::now` and drops the time zone with
/// `naive_local`.
///
/// Trusted: nothing. Any time may come back.
#[verifier::external_body]
fn local_now() -> (now: NaiveDateTime) {
    chrono::Local::now().naive_local()
}

/// What the two tables are to the contracts.
#[verifier::ext_equal]
pub struct DbView {
    pub users: UsersView,
    pub sessions: SessionsView,
}

impl DbView {
    /// The constraints that span both tables, on top of each table's own:
    /// every session belongs to an account, and an account has at most one.
    pub open spec fn wf(self) -> bool {
        &&& self.users.wf()
        &&& self.sessions.wf()
        &&& forall|k: Seq<char>| #[trigger]
            self.sessions.rows.dom().contains(k) ==> self.users.has_id(
                self.sessions.rows[k].user_id,
            )
        &&& forall|k1: Seq<char>, k2: Seq<char>|
            #![trigger self.sessions.rows[k1], self.sessions.rows[k2]]
            self.sessions.rows.dom().contains(k1) && self.sessions.rows.dom().contains(k2)
                && self.sessions.rows[k1].user_id == self.sessions.rows[k2].user_id ==> k1 == k2
    }

    /// No account and no session.
    pub open spec fn empty() -> DbView {
        DbView { users: UsersView::empty(), sessions: SessionsView::empty() }
    }

    /// Whether `session_id` is the token of a live session.
    pub open spec fn is_live(self, session_id: Seq<char>) -> bool {
        self.sessions.rows.dom().contains(session_id)
    }

    /// Whether no account but this one has a live session.
    pub open spec fn only_sessions_of(self, user_id: i32) -> bool {
        forall|k: Seq<char>| #[trigger] self.is_live(k) ==> self.sessions.rows[k].user_id == user_id
    }

    /// Whether `email` names an account whose stored hash matches `password`.
    pub open spec fn credentials_match(self, email: Seq<char>, password: Seq<char>) -> bool {
        self.users.rows.dom().contains(email) && password_matches(
            password,
            self.users.rows[email].password,
        )
    }

    /// Registration, once the password is hashed and the time is taken: the
    /// tables afterwards, and the account or the failure.
    ///
    /// A taken email is an invalid email; ids that have run out are an
    /// internal error. A failure changes nothing.
    pub open spec fn register(
        self,
        email: Seq<char>,
        password_hash: Seq<u8>,
        created_at: NaiveDateTime,
    ) -> (DbView, Result<UserRow, ServiceError>) {
        if self.users.rows.dom().contains(email) {
            (self, Err(ServiceError::InvalidEmail))
        } else if !self.users.can_create(email) {
            (self, Err(ServiceError::InternalError))
        } else {
            (
                DbView {
                    users: self.users.create(email, password_hash, created_at),
                    sessions: self.sessions,
                },
                Ok(self.users.new_row(email, password_hash, created_at)),
            )
        }
    }

    /// The step of a login that touches the tables, once the account is
    /// known and the token is drawn: the account's old session goes and the
    /// new one comes, in one step.
    ///
    /// An id that no account has, and a token that another account's session
    /// holds, is an internal error and changes nothing.
    pub open spec fn open_session(
        self,
        user_id: i32,
        session_id: Seq<char>,
        created_at: NaiveDateTime,
    ) -> (DbView, Result<SessionRow, ServiceError>) {
        let cleared = self.sessions.delete_by_user(user_id);
        if !self.users.has_id(user_id) || !cleared.can_create(session_id) {
            (self, Err(ServiceError::InternalError))
        } else {
            let row = SessionRow { session_id, user_id, created_at };
            (DbView { users: self.users, sessions: cleared.create(row) }, Ok(row))
        }
    }

    /// A login, once the token is drawn and the time is taken.
    ///
    /// An unknown email and a wrong password give the same failure and
    /// change nothing.
    pub open spec fn login(
        self,
        email: Seq<char>,
        password: Seq<char>,
        session_id: Seq<char>,
        created_at: NaiveDateTime,
    ) -> (DbView, Result<SessionRow, ServiceError>) {
        if !self.credentials_match(email, password) {
            (self, Err(ServiceError::InvalidCredentials))
        } else {
            self.open_session(self.users.rows[email].user_id, session_id, created_at)
        }
    }

    /// A logout: the session goes if it is live, and is invalid if not.
    pub open spec fn logout(self, session_id: Seq<char>) -> (DbView, Result<(), ServiceError>) {
        if self.is_live(session_id) {
            (
                DbView {
                    users: self.users,
                    sessions: self.sessions.delete_by_session_id(session_id),
                },
                Ok(()),
            )
        } else {
            (self, Err(ServiceError::InvalidSession))
        }
    }
}

impl DbView {
    /// A registration keeps the constraints.
    pub proof fn lemma_register_wf(
        self,
        email: Seq<char>,
        password_hash: Seq<u8>,
        created_at: NaiveDateTime,
    )
        requires
            self.wf(),
        ensures
            self.register(email, password_hash, created_at).0.wf(),
    {
        let after = self.register(email, password_hash, created_at).0;
        if after != self {
            assert forall|e: Seq<char>| #[trigger]
                after.users.rows.dom().contains(e) implies after.users.rows[e].email == e && 1
                <= after.users.rows[e].user_id < after.users.next_id by {
                if e != email {
                    assert(self.users.rows.dom().contains(e));
                }
            }
            assert forall|e1: Seq<char>, e2: Seq<char>|
                #![trigger after.users.rows[e1], after.users.rows[e2]]
                after.users.rows.dom().contains(e1) && after.users.rows.dom().contains(e2)
                    && after.users.rows[e1].user_id == after.users.rows[e2].user_id implies e1
                == e2 by {
                if e1 != email {
                    assert(self.users.rows.dom().contains(e1));
                }
                if e2 != email {
                    assert(self.users.rows.dom().contains(e2));
                }
            }
            assert forall|k: Seq<char>| #[trigger]
                after.sessions.rows.dom().contains(k) implies after.users.has_id(
                after.sessions.rows[k].user_id,
            ) by {
                let user_id = self.sessions.rows[k].user_id;
                assert(self.users.has_id(user_id));
                let e = choose|e: Seq<char>| #[trigger]
                    self.users.rows.dom().contains(e) && self.users.rows[e].user_id == user_id;
                assert(after.users.rows.dom().contains(e));
            }
        }
    }

    /// Opening a session keeps the constraints: the account's old session is
    /// gone before the new one is there.
    pub proof fn lemma_open_session_wf(
        self,
        user_id: i32,
        session_id: Seq<char>,
        created_at: NaiveDateTime,
    )
        requires
            self.wf(),
        ensures
            self.open_session(user_id, session_id, created_at).0.wf(),
    {
        let after = self.open_session(user_id, session_id, created_at).0;
        if after != self {
            let cleared = self.sessions.delete_by_user(user_id);
            assert(cleared.rows.dom().subset_of(self.sessions.rows.dom()));
            vstd::set_lib::lemma_set_subset_finite(self.sessions.rows.dom(), cleared.rows.dom());
            assert forall|k: Seq<char>| #[trigger]
                after.sessions.rows.dom().contains(k) implies after.sessions.rows[k].session_id
                == k && after.users.has_id(after.sessions.rows[k].user_id) by {
                if k != session_id {
                    assert(self.sessions.rows.dom().contains(k));
                }
            }
            assert forall|k1: Seq<char>, k2: Seq<char>|
                #![trigger after.sessions.rows[k1], after.sessions.rows[k2]]
                after.sessions.rows.dom().contains(k1) && after.sessions.rows.dom().contains(k2)
                    && after.sessions.rows[k1].user_id == after.sessions.rows[k2].user_id implies k1
                == k2 by {
                if k1 != session_id {
                    assert(cleared.rows.dom().contains(k1));
                }
                if k2 != session_id {
                    assert(cleared.rows.dom().contains(k2));
                }
            }
        }
    }

    /// A login keeps the constraints.
    pub proof fn lemma_login_wf(
        self,
        email: Seq<char>,
        password: Seq<char>,
        session_id: Seq<char>,
        created_at: NaiveDateTime,
    )
        requires
            self.wf(),
        ensures
            self.login(email, password, session_id, created_at).0.wf(),
    {
        if self.credentials_match(email, password) {
            self.lemma_open_session_wf(self.users.rows[email].user_id, session_id, created_at);
        }
    }

    /// A logout keeps the constraints.
    pub proof fn lemma_logout_wf(self, session_id: Seq<char>)
        requires
            self.wf(),
        ensures
            self.logout(session_id).0.wf(),
    {
        let after = self.logout(session_id).0;
        if after != self {
            assert forall|k: Seq<char>| #[trigger]
                after.sessions.rows.dom().contains(k) implies after.sessions.rows[k].session_id
                == k && after.users.has_id(after.sessions.rows[k].user_id) by {
                assert(self.sessions.rows.dom().contains(k));
            }
        }
    }
}

/// What an operation on accounts gave, to the contracts.
pub open spec fn user_outcome(outcome: Result<User, ServiceError>) -> Result<
    UserRow,
    ServiceError,
> {
    match outcome {
        Ok(user) => Ok(user@),
        Err(e) => Err(e),
    }
}

/// What an operation on sessions gave, to the contracts.
pub open spec fn session_outcome(outcome: Result<Session, ServiceError>) -> Result<
    SessionRow,
    ServiceError,
> {
    match outcome {
        Ok(session) => Ok(session@),
        Err(e) => Err(e),
    }
}

/// Decides who is logging in, from what the lookup by email found.
///
/// No account and a password that does not match the account's hash are the
/// same failure, so that a caller cannot tell which emails are registered.
pub fn authenticate(hasher: &Hasher, found: Option<User>, password: &str) -> (who: Result<
    User,
    ServiceError,
>)
    ensures
        match who {
            Ok(user) => found == Some(user) && password_matches(password@, user@.password),
            Err(e) => e == ServiceError::InvalidCredentials && !(found matches Some(user)
                && password_matches(password@, user@.password)),
        },
{
    match found {
        Some(user) => {
            if hasher.verify(password, user.password.as_slice()) {
                Ok(user)
            } else {
                Err(ServiceError::InvalidCredentials)
            }
        },
        None => Err(ServiceError::InvalidCredentials),
    }
}

/// Makes the session of a login: a fresh token and the time of the clock.
pub fn new_session(user_id: i32) -> (session: Session)
    ensures
        session.user_id == user_id,
        is_token(session.session_id@),
{
    Session { session_id: fresh_token(), user_id, created_at: local_now() }
}

/// Makes the account of a registration ready to be stored, from what the
/// lookup by email found: hashes the password and takes the time.
///
/// An email that an account already has is an invalid email. A failure of
/// the hasher is an internal error.
pub fn prepare_user(hasher: &Hasher, existing: Option<User>, msg: Register) -> (prepared: Result<
    NewUser,
    ServiceError,
>)
    ensures
        match prepared {
            Ok(new_user) => existing is None && new_user.email@ == msg.email@
                && new_user.password@.len() == HASH_LEN && password_matches(
                msg.password@,
                new_user.password@,
            ),
            Err(e) => (e == ServiceError::InvalidEmail <==> existing is Some) && (e
                == ServiceError::InvalidEmail || e == ServiceError::InternalError),
        },
        !cost_supported(hasher.cost()) ==> prepared is Err,
{
    if existing.is_some() {
        return Err(ServiceError::InvalidEmail);
    }
    match hasher.hash(msg.password.as_str()) {
        Ok(password) => Ok(NewUser { email: msg.email, password, created_at: local_now() }),
        Err(e) => Err(e),
    }
}

/// Decides a logout from whether the table held the session.
pub fn logout_outcome(existed: bool) -> (outcome: Result<(), ServiceError>)
    ensures
        outcome == if existed {
            Ok::<(), ServiceError>(())
        } else {
            Err::<(), ServiceError>(ServiceError::InvalidSession)
        },
{
    if existed {
        Ok(())
    } else {
        Err(ServiceError::InvalidSession)
    }
}

/// The worker that owns the two tables and does one piece of work at a time.
///
/// Every method takes the executor by `&mut`, so the pieces of work on one
/// executor happen one after the other: the old session of an account is
/// never deleted by one login while another inserts.
pub struct DbExecutor {
    users: Users,
    sessions: Sessions,
    hasher: Hasher,
}

impl View for DbExecutor {
    type V = DbView;

    closed spec fn view(&self) -> DbView {
        DbView { users: self.users@, sessions: self.sessions@ }
    }
}

impl DbExecutor {
    /// The invariant of the executor: each table's own, and the constraints
    /// that span both. `new` establishes it and every method keeps it.
    pub closed spec fn wf(&self) -> bool {
        &&& self.users.wf()
        &&& self.sessions.wf()
        &&& self@.wf()
    }

    /// The credential hasher that the executor works with.
    pub closed spec fn hasher(&self) -> Hasher {
        self.hasher
    }

    /// An executor that satisfies its invariant has tables that satisfy
    /// their constraints.
    pub proof fn lemma_view_wf(&self)
        requires
            self.wf(),
        ensures
            self@.wf(),
    {
    }

    /// An executor with empty tables and the work factor that `bcrypt`
    /// recommends.
    pub fn new() -> (db: DbExecutor)
        ensures
            db.wf(),
            db@ == DbView::empty(),
            db.hasher().cost() == 12,
    {
        DbExecutor::with_hasher(Hasher::new())
    }

    /// An executor with empty tables and the given hasher.
    pub fn with_hasher(hasher: Hasher) -> (db: DbExecutor)
        ensures
            db.wf(),
            db@ == DbView::empty(),
            db.hasher() == hasher,
    {
        let db = DbExecutor { users: Users::new(), sessions: Sessions::new(), hasher };
        proof {
            db.users.lemma_view_wf();
            db.sessions.lemma_view_wf();
        }
        db
    }

    /// Looks an account up by its email.
    pub fn find_user(&self, email: &str) -> (found: Option<User>)
        requires
            self.wf(),
        ensures
            found is Some <==> self@.users.find_by_email(email@) is Some,
            found matches Some(user) ==> self@.users.find_by_email(email@) == Some(user@),
    {
        self.users.find_by_email(email)
    }

    /// The account that a live session belongs to.
    pub fn session_owner(&self, session_id: &str) -> (user_id: Option<i32>)
        requires
            self.wf(),
        ensures
            user_id == if self@.is_live(session_id@) {
                Some(self@.sessions.rows[session_id@].user_id)
            } else {
                None
            },
    {
        self.sessions.owner(session_id)
    }

    /// Stores an account that is ready to be stored.
    pub fn insert_user(&mut self, new_user: NewUser) -> (created: Result<User, ServiceError>)
        requires
            old(self).wf(),
        ensures
            final(self).wf(),
            final(self).hasher() == old(self).hasher(),
            final(self)@ == old(self)@.register(
                new_user.email@,
                new_user.password@,
                new_user.created_at,
            ).0,
            user_outcome(created) == old(self)@.register(
                new_user.email@,
                new_user.password@,
                new_user.created_at,
            ).1,
    {
        proof {
            old(self)@.lemma_register_wf(new_user.email@, new_user.password@, new_user.created_at);
        }
        if self.users.find_by_email(new_user.email.as_str()).is_some() {
            return Err(ServiceError::InvalidEmail);
        }
        self.users.create(new_user.email, new_user.password, new_user.created_at)
    }

    /// Registers an account: refuses a taken email, hashes the password and
    /// stores the account with the time of the clock.
    ///
    /// The salt and the time are drawn inside, so the contract speaks of the
    /// account that came back: it is stored as `DbView::register` says, under
    /// the next id, and its hash matches the password. A failure changes
    /// nothing; it is an invalid email exactly where the email was taken.
    pub fn handle_register(&mut self, msg: Register) -> (created: Result<User, ServiceError>)
        requires
            old(self).wf(),
        ensures
            final(self).wf(),
            final(self).hasher() == old(self).hasher(),
            match created {
                Ok(user) => {
                    &&& user@.email == msg.email@
                    &&& user@.password.len() == HASH_LEN
                    &&& password_matches(msg.password@, user@.password)
                    &&& final(self)@ == old(self)@.register(
                        msg.email@,
                        user@.password,
                        user@.created_at,
                    ).0
                    &&& Ok::<UserRow, ServiceError>(user@) == old(self)@.register(
                        msg.email@,
                        user@.password,
                        user@.created_at,
                    ).1
                    &&& user@.user_id == old(self)@.users.next_id
                    &&& final(self)@.credentials_match(msg.email@, msg.password@)
                },
                Err(e) => {
                    &&& final(self)@ == old(self)@
                    &&& e == ServiceError::InvalidEmail <==> old(self)@.users.rows.dom().contains(
                        msg.email@,
                    )
                    &&& e == ServiceError::InvalidEmail || e == ServiceError::InternalError
                },
            },
            !cost_supported(old(self).hasher().cost()) ==> created is Err,
    {
        let existing = self.users.find_by_email(msg.email.as_str());
        match prepare_user(&self.hasher, existing, msg) {
            Ok(new_user) => self.insert_user(new_user),
            Err(e) => Err(e),
        }
    }

    /// Gives the account its one session: deletes the session it had and
    /// inserts the new one, in one step.
    ///
    /// Fails with an internal error, and changes nothing, where no account
    /// has the id or another account's session holds the token.
    pub fn open_session(
        &mut self,
        user_id: i32,
        session_id: String,
        created_at: NaiveDateTime,
    ) -> (opened: Result<Session, ServiceError>)
        requires
            old(self).wf(),
        ensures
            final(self).wf(),
            final(self).hasher() == old(self).hasher(),
            final(self)@ == old(self)@.open_session(user_id, session_id@, created_at).0,
            session_outcome(opened) == old(self)@.open_session(user_id, session_id@, created_at).1,
    {
        proof {
            old(self)@.lemma_open_session_wf(user_id, session_id@, created_at);
        }
        if !self.users.contains_id(user_id) {
            return Err(ServiceError::InternalError);
        }
        match self.sessions.owner(session_id.as_str()) {
            Some(other) => {
                if other != user_id {
                    return Err(ServiceError::InternalError);
                }
            },
            None => {},
        }
        self.sessions.delete_by_user(user_id);
        self.sessions.create(user_id, session_id, created_at)
    }

    /// Logs an account in: checks the password against the stored hash and,
    /// where it matches, replaces the account's session by a new one.
    ///
    /// The token and the time are drawn inside, so the contract speaks of the
    /// session that came back: the tables changed as `DbView::login` says for
    /// its token and time. A failure changes nothing; it is invalid
    /// credentials exactly where the email is unknown or the password wrong.
    /// A login with matching credentials succeeds at least where no other
    /// account holds a session.
    pub fn handle_login(&mut self, msg: Login) -> (opened: Result<Session, ServiceError>)
        requires
            old(self).wf(),
        ensures
            final(self).wf(),
            final(self).hasher() == old(self).hasher(),
            match opened {
                Ok(session) => {
                    &&& is_token(session@.session_id)
                    &&& final(self)@ == old(self)@.login(
                        msg.email@,
                        msg.password@,
                        session@.session_id,
                        session@.created_at,
                    ).0
                    &&& Ok::<SessionRow, ServiceError>(session@) == old(self)@.login(
                        msg.email@,
                        msg.password@,
                        session@.session_id,
                        session@.created_at,
                    ).1
                    &&& session@.user_id == old(self)@.users.rows[msg.email@].user_id
                    &&& final(self)@.sessions.of_user(session@.user_id) == set![
                        session@.session_id,
                    ]
                },
                Err(e) => {
                    &&& final(self)@ == old(self)@
                    &&& e == ServiceError::InvalidCredentials <==> !old(self)@.credentials_match(
                        msg.email@,
                        msg.password@,
                    )
                    &&& e == ServiceError::InvalidCredentials || e == ServiceError::InternalError
                },
            },
            old(self)@.credentials_match(msg.email@, msg.password@) && old(self)@.only_sessions_of(
                old(self)@.users.rows[msg.email@].user_id,
            ) ==> opened is Ok,
    {
        let found = self.users.find_by_email(msg.email.as_str());
        match authenticate(&self.hasher, found, msg.password.as_str()) {
            Ok(user) => {
                let session = new_session(user.user_id);
                let ghost before = self@;
                let ghost token = session.session_id@;
                let opened = self.open_session(
                    session.user_id,
                    session.session_id,
                    session.created_at,
                );
                proof {
                    // The account that was found is the witness for its id.
                    assert(before.users.rows.dom().contains(msg.email@));
                    assert(before.users.has_id(user.user_id));
                    if before.only_sessions_of(user.user_id) {
                        // The token is free once the account's own session is gone.
                        assert(before.is_live(token) ==> before.sessions.rows[token].user_id
                            == user.user_id);
                        assert(before.sessions.delete_by_user(user.user_id).can_create(token));
                        assert(session_outcome(opened) is Ok);
                    }
                    if opened is Ok {
                        lemma_login_leaves_one_session(
                            before,
                            msg.email@,
                            msg.password@,
                            token,
                            session.created_at,
                        );
                    }
                }
                opened
            },
            Err(e) => Err(e),
        }
    }

    /// Logs a session out. A token that was never issued, and one that is
    /// already logged out or replaced, is an invalid session.
    pub fn handle_logout(&mut self, msg: Logout) -> (outcome: Result<(), ServiceError>)
        requires
            old(self).wf(),
        ensures
            final(self).wf(),
            final(self).hasher() == old(self).hasher(),
            final(self)@ == old(self)@.logout(msg.session.session_id@).0,
            outcome == old(self)@.logout(msg.session.session_id@).1,
            outcome is Ok <==> old(self)@.is_live(msg.session.session_id@),
            !final(self)@.is_live(msg.session.session_id@),
    {
        proof {
            old(self)@.lemma_logout_wf(msg.session.session_id@);
        }
        let existed = self.sessions.delete_by_session_id(msg.session.session_id.as_str());
        logout_outcome(existed)
    }
}

} // verus!
