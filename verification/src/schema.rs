//! The two tables: `users`, keyed by email, and `sessions`, keyed by token.
//!
//! Each table is a raw store. It keeps its own key constraints and nothing
//! else: that an account has at most one session is the business of the
//! executor that owns both.

use crate::db::{Session, SessionRow, User, UserRow};
use crate::errors::ServiceError;
use crate::table::{
    at_key, by_key, distinct_keys, lemma_by_key_absent, lemma_by_key_at, lemma_by_key_empty,
    lemma_by_key_finite, lemma_by_key_push, lemma_by_key_remove, lemma_by_key_row, Keyed,
};
use chrono::NaiveDateTime;
use vstd::prelude::*;

verus! {

/// What the `users` table is to the contracts: its rows by email, and the
/// id that the next new row gets.
#[verifier::ext_equal]
pub struct UsersView {
    pub rows: Map<Seq<char>, UserRow>,
    pub next_id: int,
}

impl UsersView {
    /// The constraints of the table: every row sits under its own email, ids
    /// are positive, below `next_id` and pairwise distinct.
    pub open spec fn wf(self) -> bool {
        &&& self.rows.dom().finite()
        &&& 1 <= self.next_id <= i32::MAX + 1
        &&& forall|e: Seq<char>| #[trigger]
            self.rows.dom().contains(e) ==> self.rows[e].email == e && 1 <= self.rows[e].user_id
                < self.next_id
        &&& forall|e1: Seq<char>, e2: Seq<char>|
            #![trigger self.rows[e1], self.rows[e2]]
            self.rows.dom().contains(e1) && self.rows.dom().contains(e2) && self.rows[e1].user_id
                == self.rows[e2].user_id ==> e1 == e2
    }

    /// The table before any account was created. Ids start at 1.
    pub open spec fn empty() -> UsersView {
        UsersView { rows: Map::empty(), next_id: 1 }
    }

    /// The row with the given email, if there is one.
    pub open spec fn find_by_email(self, email: Seq<char>) -> Option<UserRow> {
        if self.rows.dom().contains(email) {
            Some(self.rows[email])
        } else {
            None
        }
    }

    /// Whether some row has the given id.
    pub open spec fn has_id(self, user_id: i32) -> bool {
        exists|e: Seq<char>| #[trigger]
            self.rows.dom().contains(e) && self.rows[e].user_id == user_id
    }

    /// Whether a row can be created for `email`: the email is free and an id
    /// is left.
    pub open spec fn can_create(self, email: Seq<char>) -> bool {
        !self.rows.dom().contains(email) && self.next_id <= i32::MAX
    }

    /// The row that `create` makes.
    pub open spec fn new_row(
        self,
        email: Seq<char>,
        password: Seq<u8>,
        created_at: NaiveDateTime,
    ) -> UserRow {
        UserRow { user_id: self.next_id as i32, email, password, created_at }
    }

    /// The table after `create` made a row.
    pub open spec fn create(
        self,
        email: Seq<char>,
        password: Seq<u8>,
        created_at: NaiveDateTime,
    ) -> UsersView {
        UsersView {
            rows: self.rows.insert(email, self.new_row(email, password, created_at)),
            next_id: self.next_id + 1,
        }
    }
}

/// The `users` table.
pub struct Users {
    rows: Vec<User>,
    last_id: i32,
}

impl View for Users {
    type V = UsersView;

    closed spec fn view(&self) -> UsersView {
        UsersView { rows: by_key(self.row_views()), next_id: self.last_id + 1 }
    }
}

impl Users {
    /// The rows in the order in which they were created.
    spec fn row_views(&self) -> Seq<UserRow> {
        self.rows@.map_values(|u: User| u@)
    }

    /// The invariant of the table. `new` establishes it and every method
    /// keeps it.
    pub closed spec fn wf(&self) -> bool {
        &&& distinct_keys(self.row_views())
        &&& 0 <= self.last_id
        &&& forall|i: int|
            0 <= i < self.rows.len() ==> 1 <= (#[trigger] self.rows[i]).user_id <= self.last_id
        &&& forall|i: int, j: int|
            0 <= i < self.rows.len() && 0 <= j < self.rows.len() && i != j ==> (
            #[trigger] self.rows[i]).user_id != (#[trigger] self.rows[j]).user_id
    }

    /// A table that satisfies its invariant has a view that satisfies the
    /// constraints of `UsersView::wf`.
    pub proof fn lemma_view_wf(&self)
        requires
            self.wf(),
        ensures
            self@.wf(),
    {
        let rows = self.row_views();
        let view = self@;
        lemma_by_key_finite(rows);
        assert forall|e: Seq<char>| #[trigger]
            view.rows.dom().contains(e) implies view.rows[e].email == e && 1
            <= view.rows[e].user_id < view.next_id by {
            let i = lemma_by_key_row(rows, e);
            assert(rows[i] == self.rows[i]@);
        }
        assert forall|e1: Seq<char>, e2: Seq<char>|
            #![trigger view.rows[e1], view.rows[e2]]
            view.rows.dom().contains(e1) && view.rows.dom().contains(e2) && view.rows[e1].user_id
                == view.rows[e2].user_id implies e1 == e2 by {
            let i = lemma_by_key_row(rows, e1);
            let j = lemma_by_key_row(rows, e2);
            assert(rows[i] == self.rows[i]@);
            assert(rows[j] == self.rows[j]@);
        }
    }

    /// The empty table.
    pub fn new() -> (table: Users)
        ensures
            table.wf(),
            table@ == UsersView::empty(),
    {
        let table = Users { rows: Vec::new(), last_id: 0 };
        proof {
            assert(table.row_views() =~= Seq::<UserRow>::empty());
            lemma_by_key_empty::<UserRow>();
        }
        table
    }

    /// Where the row with the given email stands, if there is one.
    fn position_of(&self, email: &String) -> (found: Option<usize>)
        ensures
            match found {
                Some(i) => at_key(self.row_views(), email@, i as int),
                None => forall|i: int|
                    0 <= i < self.row_views().len() ==> (#[trigger] self.row_views()[i]).key()
                        != email@,
            },
    {
        let mut i: usize = 0;
        while i < self.rows.len()
            invariant
                i <= self.rows.len(),
                forall|j: int| 0 <= j < i ==> (#[trigger] self.row_views()[j]).key() != email@,
            decreases self.rows.len() - i,
        {
            if self.rows[i].email == *email {
                return Some(i);
            }
            i += 1;
        }
        None
    }

    /// Looks an account up by its email, compared exactly. An email that no
    /// account has gives `None`, never an error.
    pub fn find_by_email(&self, email: &str) -> (found: Option<User>)
        requires
            self.wf(),
        ensures
            found is Some <==> self@.find_by_email(email@) is Some,
            found matches Some(user) ==> self@.find_by_email(email@) == Some(user@),
    {
        let wanted = email.to_owned();
        match self.position_of(&wanted) {
            Some(i) => {
                proof {
                    lemma_by_key_at(self.row_views(), i as int);
                }
                Some(self.rows[i].clone())
            },
            None => {
                proof {
                    lemma_by_key_absent(self.row_views(), email@);
                }
                None
            },
        }
    }

    /// Whether some account has the id.
    pub fn contains_id(&self, user_id: i32) -> (found: bool)
        requires
            self.wf(),
        ensures
            found == self@.has_id(user_id),
    {
        let mut i: usize = 0;
        while i < self.rows.len()
            invariant
                self.wf(),
                i <= self.rows.len(),
                forall|j: int| 0 <= j < i ==> (#[trigger] self.rows[j]).user_id != user_id,
            decreases self.rows.len() - i,
        {
            if self.rows[i].user_id == user_id {
                proof {
                    lemma_by_key_at(self.row_views(), i as int);
                    assert(self@.rows.dom().contains(self.rows[i as int]@.email));
                }
                return true;
            }
            i += 1;
        }
        proof {
            if self@.has_id(user_id) {
                let e = choose|e: Seq<char>| #[trigger]
                    self@.rows.dom().contains(e) && self@.rows[e].user_id == user_id;
                let j = lemma_by_key_row(self.row_views(), e);
                assert(self.row_views()[j] == self.rows[j]@);
            }
        }
        false
    }

    /// Creates the account and returns it with the id it was given.
    ///
    /// Fails with an internal error, and changes nothing, where the email is
    /// taken or the ids have run out.
    pub fn create(
        &mut self,
        email: String,
        password: Vec<u8>,
        created_at: NaiveDateTime,
    ) -> (created: Result<User, ServiceError>)
        requires
            old(self).wf(),
        ensures
            final(self).wf(),
            match created {
                Ok(user) => old(self)@.can_create(email@) && user@ == old(self)@.new_row(
                    email@,
                    password@,
                    created_at,
                ) && final(self)@ == old(self)@.create(email@, password@, created_at),
                Err(e) => !old(self)@.can_create(email@) && e == ServiceError::InternalError
                    && final(self)@ == old(self)@,
            },
    {
        let taken = self.position_of(&email);
        proof {
            match taken {
                Some(i) => lemma_by_key_at(self.row_views(), i as int),
                None => lemma_by_key_absent(self.row_views(), email@),
            }
        }
        if taken.is_some() || self.last_id == i32::MAX {
            return Err(ServiceError::InternalError);
        }
        let user = User { user_id: self.last_id + 1, email, password, created_at };
        let copy = user.clone();
        proof {
            lemma_by_key_push(self.row_views(), user@);
            assert(self.rows@.push(user).map_values(|u: User| u@) =~= self.row_views().push(
                user@,
            ));
        }
        self.last_id = self.last_id + 1;
        self.rows.push(user);
        Ok(copy)
    }
}

/// What the `sessions` table is to the contracts: its rows by token.
#[verifier::ext_equal]
pub struct SessionsView {
    pub rows: Map<Seq<char>, SessionRow>,
}

impl SessionsView {
    /// The constraint of the table: every row sits under its own token.
    pub open spec fn wf(self) -> bool {
        &&& self.rows.dom().finite()
        &&& forall|k: Seq<char>| #[trigger]
            self.rows.dom().contains(k) ==> self.rows[k].session_id == k
    }

    /// The table with no session in it.
    pub open spec fn empty() -> SessionsView {
        SessionsView { rows: Map::empty() }
    }

    /// The tokens of the sessions of one account.
    pub open spec fn of_user(self, user_id: i32) -> Set<Seq<char>> {
        Set::new(|k: Seq<char>| self.rows.dom().contains(k) && self.rows[k].user_id == user_id)
    }

    /// Whether a row can be created under the token: the token is free.
    pub open spec fn can_create(self, session_id: Seq<char>) -> bool {
        !self.rows.dom().contains(session_id)
    }

    /// The table after `create` made the row.
    pub open spec fn create(self, row: SessionRow) -> SessionsView {
        SessionsView { rows: self.rows.insert(row.session_id, row) }
    }

    /// The table without the sessions of one account.
    pub open spec fn delete_by_user(self, user_id: i32) -> SessionsView {
        SessionsView {
            rows: Map::new(
                |k: Seq<char>| self.rows.dom().contains(k) && self.rows[k].user_id != user_id,
                |k: Seq<char>| self.rows[k],
            ),
        }
    }

    /// The table without the session that has the token.
    pub open spec fn delete_by_session_id(self, session_id: Seq<char>) -> SessionsView {
        SessionsView { rows: self.rows.remove(session_id) }
    }
}

/// The `sessions` table.
pub struct Sessions {
    rows: Vec<Session>,
}

impl View for Sessions {
    type V = SessionsView;

    closed spec fn view(&self) -> SessionsView {
        SessionsView { rows: by_key(self.row_views()) }
    }
}

impl Sessions {
    /// The rows in the order in which they were created.
    spec fn row_views(&self) -> Seq<SessionRow> {
        self.rows@.map_values(|s: Session| s@)
    }

    /// The invariant of the table. `new` establishes it and every method
    /// keeps it.
    pub closed spec fn wf(&self) -> bool {
        distinct_keys(self.row_views())
    }

    /// A table that satisfies its invariant has a view that satisfies the
    /// constraint of `SessionsView::wf`.
    pub proof fn lemma_view_wf(&self)
        requires
            self.wf(),
        ensures
            self@.wf(),
    {
        let rows = self.row_views();
        let view = self@;
        lemma_by_key_finite(rows);
        assert forall|k: Seq<char>| #[trigger]
            view.rows.dom().contains(k) implies view.rows[k].session_id == k by {
            let i = lemma_by_key_row(rows, k);
        }
    }

    /// The empty table.
    pub fn new() -> (table: Sessions)
        ensures
            table.wf(),
            table@ == SessionsView::empty(),
    {
        let table = Sessions { rows: Vec::new() };
        proof {
            assert(table.row_views() =~= Seq::<SessionRow>::empty());
            lemma_by_key_empty::<SessionRow>();
        }
        table
    }

    /// Where the row with the given token stands, if there is one.
    fn position_of(&self, session_id: &String) -> (found: Option<usize>)
        ensures
            match found {
                Some(i) => at_key(self.row_views(), session_id@, i as int),
                None => forall|i: int|
                    0 <= i < self.row_views().len() ==> (#[trigger] self.row_views()[i]).key()
                        != session_id@,
            },
    {
        let mut i: usize = 0;
        while i < self.rows.len()
            invariant
                i <= self.rows.len(),
                forall|j: int|
                    0 <= j < i ==> (#[trigger] self.row_views()[j]).key() != session_id@,
            decreases self.rows.len() - i,
        {
            if self.rows[i].session_id == *session_id {
                return Some(i);
            }
            i += 1;
        }
        None
    }

    /// The account that a live session belongs to; `None` for a token that
    /// no live session has.
    pub fn owner(&self, session_id: &str) -> (user_id: Option<i32>)
        requires
            self.wf(),
        ensures
            user_id == if self@.rows.dom().contains(session_id@) {
                Some(self@.rows[session_id@].user_id)
            } else {
                None
            },
    {
        let wanted = session_id.to_owned();
        match self.position_of(&wanted) {
            Some(i) => {
                proof {
                    lemma_by_key_at(self.row_views(), i as int);
                }
                Some(self.rows[i].user_id)
            },
            None => {
                proof {
                    lemma_by_key_absent(self.row_views(), session_id@);
                }
                None
            },
        }
    }

    /// Inserts a session row and returns it.
    ///
    /// The table does not look at the other sessions of the account: whoever
    /// wants one session per account deletes the old one first. Fails with an
    /// internal error, and changes nothing, where the token is taken.
    pub fn create(
        &mut self,
        user_id: i32,
        session_id: String,
        created_at: NaiveDateTime,
    ) -> (created: Result<Session, ServiceError>)
        requires
            old(self).wf(),
        ensures
            final(self).wf(),
            match created {
                Ok(session) => old(self)@.can_create(session_id@) && session@ == (SessionRow {
                    session_id: session_id@,
                    user_id,
                    created_at,
                }) && final(self)@ == old(self)@.create(session@),
                Err(e) => !old(self)@.can_create(session_id@) && e == ServiceError::InternalError
                    && final(self)@ == old(self)@,
            },
    {
        let taken = self.position_of(&session_id);
        proof {
            match taken {
                Some(i) => lemma_by_key_at(self.row_views(), i as int),
                None => lemma_by_key_absent(self.row_views(), session_id@),
            }
        }
        if taken.is_some() {
            return Err(ServiceError::InternalError);
        }
        let session = Session { session_id, user_id, created_at };
        let copy = session.clone();
        proof {
            lemma_by_key_push(self.row_views(), session@);
            assert(self.rows@.push(session).map_values(|s: Session| s@) =~= self.row_views().push(
                session@,
            ));
        }
        self.rows.push(session);
        Ok(copy)
    }

    /// Removes every session of the account. That there is none is no error.
    pub fn delete_by_user(&mut self, user_id: i32)
        requires
            old(self).wf(),
        ensures
            final(self).wf(),
            final(self)@ == old(self)@.delete_by_user(user_id),
    {
        let ghost before = self@;
        let mut i: usize = 0;
        while i < self.rows.len()
            invariant
                self.wf(),
                i <= self.rows.len(),
                forall|j: int| 0 <= j < i ==> (#[trigger] self.rows[j]).user_id != user_id,
                self@.delete_by_user(user_id) == before.delete_by_user(user_id),
            decreases self.rows.len() - i,
        {
            if self.rows[i].user_id == user_id {
                let ghost rows = self.row_views();
                let ghost view = self@;
                proof {
                    lemma_by_key_remove(rows, i as int);
                    lemma_by_key_at(rows, i as int);
                    assert(self.rows@.remove(i as int).map_values(|s: Session| s@) =~= rows.remove(
                        i as int,
                    ));
                }
                self.rows.remove(i);
                proof {
                    assert(self@.rows == view.rows.remove(rows[i as int].key()));
                    assert(self@.delete_by_user(user_id).rows =~= view.delete_by_user(
                        user_id,
                    ).rows);
                }
            } else {
                i += 1;
            }
        }
        proof {
            let rows = self.row_views();
            assert forall|k: Seq<char>| #[trigger]
                self@.rows.dom().contains(k) implies self@.rows[k].user_id != user_id by {
                let j = lemma_by_key_row(rows, k);
                assert(rows[j] == self.rows[j]@);
            }
            assert(self@.delete_by_user(user_id).rows =~= self@.rows);
        }
    }

    /// Removes the session with the token and says whether there was one.
    pub fn delete_by_session_id(&mut self, session_id: &str) -> (existed: bool)
        requires
            old(self).wf(),
        ensures
            final(self).wf(),
            existed == old(self)@.rows.dom().contains(session_id@),
            final(self)@ == old(self)@.delete_by_session_id(session_id@),
    {
        let wanted = session_id.to_owned();
        match self.position_of(&wanted) {
            Some(i) => {
                proof {
                    let rows = self.row_views();
                    lemma_by_key_at(rows, i as int);
                    lemma_by_key_remove(rows, i as int);
                    assert(self.rows@.remove(i as int).map_values(|s: Session| s@) =~= rows.remove(
                        i as int,
                    ));
                }
                self.rows.remove(i);
                true
            },
            None => {
                proof {
                    lemma_by_key_absent(self.row_views(), session_id@);
                    assert(self@.rows.remove(session_id@) =~= self@.rows);
                }
                false
            },
        }
    }
}

} // verus!
