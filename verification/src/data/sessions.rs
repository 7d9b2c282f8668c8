//! Sessions and the store that keeps them. A session is valid for as long as
//! the store holds it; a token alone proves nothing.

use crate::data::table::{distinct, lemma_table_at, lemma_table_miss, lemma_table_push, lemma_table_remove, table};
use crate::error::StorageError;
use crate::text::text_equal;
use crate::time::Timestamp;
use vstd::prelude::*;

verus! {

/// One signed-in device or browser of a user.
#[derive(Debug, PartialEq, Eq)]
pub struct Session {
    pub id: String,
    pub user_id: String,
    /// When the session runs out; a session without an expiry never does.
    pub expiry: Option<Timestamp>,
}

/// Mathematical value of a [`Session`].
pub struct SessionView {
    pub id: Seq<char>,
    pub user_id: Seq<char>,
    pub expiry: Option<i64>,
}

impl View for Session {
    type V = SessionView;

    open spec fn view(&self) -> SessionView {
        SessionView { id: self.id@, user_id: self.user_id@, expiry: self.expiry }
    }
}

impl Clone for Session {
    fn clone(&self) -> (copy: Self)
        ensures
            copy@ == self@,
    {
        Session { id: self.id.clone(), user_id: self.user_id.clone(), expiry: self.expiry }
    }
}

/// The value of an optional session.
pub open spec fn session_option_view(session: Option<Session>) -> Option<SessionView> {
    match session {
        Some(s) => Some(s@),
        None => None,
    }
}

/// What a session is found by: its id.
pub open spec fn session_key() -> spec_fn(SessionView) -> Seq<char> {
    |s: SessionView| s.id
}

/// The session with the given id, provided it belongs to the given user.
pub open spec fn session_lookup(
    store: Map<Seq<char>, SessionView>,
    user_id: Seq<char>,
    session_id: Seq<char>,
) -> Option<SessionView> {
    if store.contains_key(session_id) && store[session_id].user_id == user_id {
        Some(store[session_id])
    } else {
        None
    }
}

/// The store after the session of that user with that id is deleted.
pub open spec fn session_delete_spec(
    store: Map<Seq<char>, SessionView>,
    user_id: Seq<char>,
    session_id: Seq<char>,
) -> Map<Seq<char>, SessionView> {
    if session_lookup(store, user_id, session_id) is Some {
        store.remove(session_id)
    } else {
        store
    }
}

/// The session store. Its value is the map from session ids to sessions.
pub struct Sessions {
    rows: Vec<Session>,
}

impl View for Sessions {
    type V = Map<Seq<char>, SessionView>;

    open spec fn view(&self) -> Map<Seq<char>, SessionView> {
        table(self.listing(), session_key())
    }
}

impl Sessions {
    /// The stored sessions, in no order that matters.
    pub closed spec fn listing(&self) -> Seq<SessionView> {
        self.rows@.map_values(|s: Session| s@)
    }

    #[verifier::type_invariant]
    spec fn well_formed(&self) -> bool {
        distinct(self.listing(), session_key())
    }

    /// An empty store.
    pub fn new() -> (store: Sessions)
        ensures
            store@ == Map::<Seq<char>, SessionView>::empty(),
    {
        let store = Sessions { rows: Vec::new() };
        proof {
            assert(store.listing() =~= Seq::<SessionView>::empty());
            assert(store@ =~= Map::<Seq<char>, SessionView>::empty());
        }
        store
    }

    /// The position of the session with the given id.
    fn position(&self, session_id: &str) -> (at: Option<usize>)
        ensures
            distinct(self.listing(), session_key()),
            match at {
                Some(i) => i < self.listing().len() && self.listing()[i as int].id == session_id@
                    && self@.contains_key(session_id@) && self@[session_id@]
                    == self.listing()[i as int],
                None => !self@.contains_key(session_id@),
            },
    {
        proof {
            use_type_invariant(self);
        }
        let mut i: usize = 0;
        while i < self.rows.len()
            invariant
                i <= self.rows.len(),
                self.rows.len() == self.listing().len(),
                distinct(self.listing(), session_key()),
                forall|j: int| 0 <= j < i ==> (session_key())(#[trigger] self.listing()[j]) != session_id@,
            decreases self.rows.len() - i,
        {
            assert(self.listing()[i as int] == self.rows[i as int]@);
            if text_equal(self.rows[i].id.as_str(), session_id) {
                proof {
                    lemma_table_at(self.listing(), session_key(), i as int);
                }
                return Some(i);
            }
            i += 1;
        }
        proof {
            lemma_table_miss(self.listing(), session_key(), session_id@);
        }
        None
    }

    /// Whether a session with the given id is stored, whoever owns it.
    pub fn contains(&self, session_id: &str) -> (known: bool)
        ensures
            known == self@.contains_key(session_id@),
    {
        self.position(session_id).is_some()
    }

    /// Looks up the session with the given id among those of the given user.
    pub fn get(&self, user_id: &str, session_id: &str) -> (r: Result<Option<Session>, StorageError>)
        ensures
            r is Ok,
            session_option_view(r->Ok_0) == session_lookup(self@, user_id@, session_id@),
    {
        match self.position(session_id) {
            Some(i) => {
                assert(self.listing()[i as int] == self.rows[i as int]@);
                if text_equal(self.rows[i].user_id.as_str(), user_id) {
                    Ok(Some(self.rows[i].clone()))
                } else {
                    Ok(None)
                }
            },
            None => Ok(None),
        }
    }

    /// Stores a new session. A session whose id is already stored is turned
    /// down and the store stays as it is.
    pub fn insert(&mut self, session: &Session) -> (r: Result<(), StorageError>)
        ensures
            old(self)@.contains_key(session.id@) ==> r == Err::<(), StorageError>(
                StorageError::Conflict,
            ) && final(self)@ == old(self)@,
            !old(self)@.contains_key(session.id@) ==> r is Ok && final(self)@ == old(self)@.insert(
                session.id@,
                session@,
            ),
    {
        match self.position(session.id.as_str()) {
            Some(_) => Err(StorageError::Conflict),
            None => {
                let row = session.clone();
                proof {
                    lemma_table_push(self.listing(), session_key(), row@);
                }
                let mut rows: Vec<Session> = Vec::new();
                assert(rows@.map_values(|s: Session| s@) =~= Seq::<SessionView>::empty());
                core::mem::swap(&mut self.rows, &mut rows);
                rows.push(row);
                assert(rows@.map_values(|s: Session| s@) =~= old(self).listing().push(row@));
                core::mem::swap(&mut self.rows, &mut rows);
                Ok(())
            },
        }
    }

    /// Deletes the session with the given id if it belongs to the given user.
    /// Deleting a session that is not there changes nothing.
    pub fn delete(&mut self, user_id: &str, session_id: &str) -> (r: Result<(), StorageError>)
        ensures
            r is Ok,
            final(self)@ == session_delete_spec(old(self)@, user_id@, session_id@),
    {
        match self.position(session_id) {
            Some(i) => {
                assert(self.listing()[i as int] == self.rows[i as int]@);
                if text_equal(self.rows[i].user_id.as_str(), user_id) {
                    proof {
                        lemma_table_remove(self.listing(), session_key(), i as int);
                    }
                    let mut rows: Vec<Session> = Vec::new();
                    assert(rows@.map_values(|s: Session| s@) =~= Seq::<SessionView>::empty());
                    core::mem::swap(&mut self.rows, &mut rows);
                    let _ = rows.remove(i);
                    assert(rows@.map_values(|s: Session| s@) =~= old(self).listing().remove(i as int));
                    core::mem::swap(&mut self.rows, &mut rows);
                }
                Ok(())
            },
            None => Ok(()),
        }
    }
}

} // verus!
