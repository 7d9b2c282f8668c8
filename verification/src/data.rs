//! The stores: bookmarks, sessions and users. They are kept in memory and
//! state, operation by operation, what a server expects of the durable store
//! behind it.

use vstd::prelude::*;

pub mod bookmarks;
pub mod sessions;
pub mod table;
pub mod users;

verus! {

/// The three stores of one server.
pub struct Data {
    pub bookmarks: bookmarks::Bookmarks,
    pub sessions: sessions::Sessions,
    pub users: users::Users,
}

impl Data {
    /// Three empty stores.
    pub fn new() -> (data: Data)
        ensures
            data.bookmarks@ == Map::<bookmarks::Key, bookmarks::BookmarkView>::empty(),
            data.sessions@ == Map::<Seq<char>, sessions::SessionView>::empty(),
            data.users@ == Map::<Seq<char>, users::UserView>::empty(),
            data.users.by_name() == Map::<Seq<char>, users::UserView>::empty(),
    {
        Data {
            bookmarks: bookmarks::Bookmarks::new(),
            sessions: sessions::Sessions::new(),
            users: users::Users::new(),
        }
    }
}

} // verus!
