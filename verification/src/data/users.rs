//! User accounts and the store that keeps them. No two accounts share an id
//! and no two share a user name.

use crate::data::sessions::{Session, Sessions};
use crate::data::table::{distinct, lemma_table_at, lemma_table_miss, lemma_table_push, table};
use crate::error::StorageError;
use crate::text::text_equal;
use vstd::prelude::*;

verus! {

/// One account.
#[derive(Debug, PartialEq, Eq)]
pub struct User {
    pub id: String,
    pub username: String,
    pub password_hash: String,
}

/// Mathematical value of a [`User`].
pub struct UserView {
    pub id: Seq<char>,
    pub username: Seq<char>,
    pub password_hash: Seq<char>,
}

impl View for User {
    type V = UserView;

    open spec fn view(&self) -> UserView {
        UserView { id: self.id@, username: self.username@, password_hash: self.password_hash@ }
    }
}

impl Clone for User {
    fn clone(&self) -> (copy: Self)
        ensures
            copy@ == self@,
    {
        User {
            id: self.id.clone(),
            username: self.username.clone(),
            password_hash: self.password_hash.clone(),
        }
    }
}

/// The value of an optional user.
pub open spec fn user_option_view(user: Option<User>) -> Option<UserView> {
    match user {
        Some(u) => Some(u@),
        None => None,
    }
}

/// The id of an account.
pub open spec fn user_key() -> spec_fn(UserView) -> Seq<char> {
    |u: UserView| u.id
}

/// The user name of an account.
pub open spec fn name_key() -> spec_fn(UserView) -> Seq<char> {
    |u: UserView| u.username
}

/// Whether the account cannot be stored beside those that are: its id or its
/// user name is taken.
pub open spec fn user_conflicts(
    by_id: Map<Seq<char>, UserView>,
    by_name: Map<Seq<char>, UserView>,
    user: UserView,
) -> bool {
    by_id.contains_key(user.id) || by_name.contains_key(user.username)
}

/// The user store. Its value is the map from user ids to accounts;
/// [`Users::by_name`] is the same accounts by user name.
pub struct Users {
    rows: Vec<User>,
}

impl View for Users {
    type V = Map<Seq<char>, UserView>;

    open spec fn view(&self) -> Map<Seq<char>, UserView> {
        table(self.listing(), user_key())
    }
}

impl Users {
    /// The stored accounts, in no order that matters.
    pub closed spec fn listing(&self) -> Seq<UserView> {
        self.rows@.map_values(|u: User| u@)
    }

    /// The accounts by user name.
    pub open spec fn by_name(&self) -> Map<Seq<char>, UserView> {
        table(self.listing(), name_key())
    }

    #[verifier::type_invariant]
    spec fn well_formed(&self) -> bool {
        &&& distinct(self.listing(), user_key())
        &&& distinct(self.listing(), name_key())
    }

    /// An empty store.
    pub fn new() -> (store: Users)
        ensures
            store@ == Map::<Seq<char>, UserView>::empty(),
            store.by_name() == Map::<Seq<char>, UserView>::empty(),
    {
        let store = Users { rows: Vec::new() };
        proof {
            assert(store.listing() =~= Seq::<UserView>::empty());
            assert(store@ =~= Map::<Seq<char>, UserView>::empty());
            assert(store.by_name() =~= Map::<Seq<char>, UserView>::empty());
        }
        store
    }

    /// Looks up the account with the given id.
    pub fn get(&self, id: &str) -> (r: Result<Option<User>, StorageError>)
        ensures
            r is Ok,
            user_option_view(r->Ok_0) == crate::data::table::find(self@, id@),
    {
        proof {
            use_type_invariant(self);
        }
        let mut i: usize = 0;
        while i < self.rows.len()
            invariant
                i <= self.rows.len(),
                self.rows.len() == self.listing().len(),
                distinct(self.listing(), user_key()),
                forall|j: int| 0 <= j < i ==> (user_key())(#[trigger] self.listing()[j]) != id@,
            decreases self.rows.len() - i,
        {
            assert(self.listing()[i as int] == self.rows[i as int]@);
            if text_equal(self.rows[i].id.as_str(), id) {
                proof {
                    lemma_table_at(self.listing(), user_key(), i as int);
                }
                return Ok(Some(self.rows[i].clone()));
            }
            i += 1;
        }
        proof {
            lemma_table_miss(self.listing(), user_key(), id@);
        }
        Ok(None)
    }

    /// Looks up the account with the given user name.
    pub fn get_by_username(&self, username: &str) -> (r: Result<Option<User>, StorageError>)
        ensures
            r is Ok,
            user_option_view(r->Ok_0) == crate::data::table::find(self.by_name(), username@),
    {
        proof {
            use_type_invariant(self);
        }
        let mut i: usize = 0;
        while i < self.rows.len()
            invariant
                i <= self.rows.len(),
                self.rows.len() == self.listing().len(),
                distinct(self.listing(), name_key()),
                forall|j: int| 0 <= j < i ==> (name_key())(#[trigger] self.listing()[j]) != username@,
            decreases self.rows.len() - i,
        {
            assert(self.listing()[i as int] == self.rows[i as int]@);
            if text_equal(self.rows[i].username.as_str(), username) {
                proof {
                    lemma_table_at(self.listing(), name_key(), i as int);
                }
                return Ok(Some(self.rows[i].clone()));
            }
            i += 1;
        }
        proof {
            lemma_table_miss(self.listing(), name_key(), username@);
        }
        Ok(None)
    }

    /// Stores a new account. An account whose id or user name is taken is
    /// turned down and the store stays as it is.
    pub fn insert(&mut self, user: &User) -> (r: Result<(), StorageError>)
        ensures
            user_conflicts(old(self)@, old(self).by_name(), user@) ==> r == Err::<(), StorageError>(
                StorageError::Conflict,
            ) && final(self)@ == old(self)@ && final(self).by_name() == old(self).by_name(),
            !user_conflicts(old(self)@, old(self).by_name(), user@) ==> r is Ok && final(self)@
                == old(self)@.insert(user.id@, user@) && final(self).by_name() == old(self).by_name().insert(user.username@, user@),
    {
        proof {
            use_type_invariant(&*self);
        }
        let by_id = self.get(user.id.as_str());
        let by_name = self.get_by_username(user.username.as_str());
        let taken = match by_id {
            Ok(Some(_)) => true,
            _ => match by_name {
                Ok(Some(_)) => true,
                _ => false,
            },
        };
        if taken {
            return Err(StorageError::Conflict);
        }
        let row = user.clone();
        proof {
            lemma_table_push(self.listing(), user_key(), row@);
            lemma_table_push(self.listing(), name_key(), row@);
        }
        let mut rows: Vec<User> = Vec::new();
        assert(rows@.map_values(|u: User| u@) =~= Seq::<UserView>::empty());
        core::mem::swap(&mut self.rows, &mut rows);
        rows.push(row);
        assert(rows@.map_values(|u: User| u@) =~= old(self).listing().push(row@));
        core::mem::swap(&mut self.rows, &mut rows);
        Ok(())
    }

    /// Stores a new account together with its first session, both or neither.
    pub fn insert_with_session(&mut self, sessions: &mut Sessions, user: &User, session: &Session) -> (r:
        Result<(), StorageError>)
        ensures
            ({
                let conflict = user_conflicts(old(self)@, old(self).by_name(), user@) || old(sessions)@.contains_key(session.id@);
                &&& conflict ==> r == Err::<(), StorageError>(StorageError::Conflict) && final(self)@
                    == old(self)@ && final(self).by_name() == old(self).by_name() && final(sessions)@ == old(sessions)@
                &&& !conflict ==> r is Ok && final(self)@ == old(self)@.insert(user.id@, user@)
                    && final(self).by_name() == old(self).by_name().insert(user.username@, user@)
                    && final(sessions)@ == old(sessions)@.insert(session.id@, session@)
            }),
    {
        let known = sessions.contains(session.id.as_str());
        if known {
            return Err(StorageError::Conflict);
        }
        match self.insert(user) {
            Err(e) => Err(e),
            Ok(()) => sessions.insert(session),
        }
    }
}

} // verus!
