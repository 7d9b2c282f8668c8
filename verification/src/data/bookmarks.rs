//! Bookmarks and the store that keeps them, one record for each pair of a
//! user and a bookmark id.

use crate::error::StorageError;
use crate::text::{
    lemma_text_before_asymmetric, lemma_text_before_irreflexive, lemma_text_before_transitive,
    text_before, text_equal, text_rank, Rank,
};
use crate::time::Timestamp;
use vstd::prelude::*;

verus! {

/// One bookmark as clients exchange it. A bookmark whose `deleted_at` is set
/// is a tombstone: it stays in the store and travels like any other change.
#[derive(Debug, PartialEq, Eq)]
pub struct Bookmark {
    pub id: String,
    pub title: String,
    pub url: String,
    pub created_at: Timestamp,
    pub updated_at: Timestamp,
    pub deleted_at: Option<Timestamp>,
}

/// Mathematical value of a [`Bookmark`].
pub struct BookmarkView {
    pub id: Seq<char>,
    pub title: Seq<char>,
    pub url: Seq<char>,
    pub created_at: i64,
    pub updated_at: i64,
    pub deleted_at: Option<i64>,
}

impl View for Bookmark {
    type V = BookmarkView;

    open spec fn view(&self) -> BookmarkView {
        BookmarkView {
            id: self.id@,
            title: self.title@,
            url: self.url@,
            created_at: self.created_at,
            updated_at: self.updated_at,
            deleted_at: self.deleted_at,
        }
    }
}

impl Clone for Bookmark {
    fn clone(&self) -> (copy: Self)
        ensures
            copy@ == self@,
    {
        Bookmark {
            id: self.id.clone(),
            title: self.title.clone(),
            url: self.url.clone(),
            created_at: self.created_at,
            updated_at: self.updated_at,
            deleted_at: self.deleted_at,
        }
    }
}

/// The creation time of a bookmark as the server takes it in: the one its
/// sender declares or, where the sender declares none, its modification
/// time, the earliest instant at which the record is known to have been.
pub open spec fn creation_time(declared: Option<i64>, updated_at: i64) -> i64 {
    match declared {
        Some(at) => at,
        None => updated_at,
    }
}

impl Bookmark {
    /// The bookmark that the server takes in for what a client sent: as it
    /// was sent, with the creation time settled by [`creation_time`].
    pub fn received(
        id: String,
        title: String,
        url: String,
        created_at: Option<Timestamp>,
        updated_at: Timestamp,
        deleted_at: Option<Timestamp>,
    ) -> (bookmark: Bookmark)
        ensures
            bookmark@ == (BookmarkView {
                id: id@,
                title: title@,
                url: url@,
                created_at: creation_time(created_at, updated_at),
                updated_at,
                deleted_at,
            }),
    {
        let created_at = match created_at {
            Some(at) => at,
            None => updated_at,
        };
        Bookmark { id, title, url, created_at, updated_at, deleted_at }
    }
}

/// The values of a sequence of bookmarks.
pub open spec fn views_of(bookmarks: Seq<Bookmark>) -> Seq<BookmarkView> {
    bookmarks.map_values(|b: Bookmark| b@)
}

/// A user id and a bookmark id: what a stored record is found by.
pub type Key = (Seq<char>, Seq<char>);

/// One stored record with its owner.
pub struct RowView {
    pub user_id: Seq<char>,
    pub bookmark: BookmarkView,
}

impl RowView {
    pub open spec fn key(self) -> Key {
        (self.user_id, self.bookmark.id)
    }
}

/// Order of the keys: by user id, then by bookmark id.
pub open spec fn key_before(a: Key, b: Key) -> bool {
    text_before(a.0, b.0) || (a.0 == b.0 && text_before(a.1, b.1))
}

/// The rows stand in strictly ascending key order, so no key occurs twice.
pub open spec fn sorted(rows: Seq<RowView>) -> bool {
    forall|i: int, j: int| 0 <= i < j < rows.len() ==> key_before(#[trigger] rows[i].key(), #[trigger] rows[j].key())
}

/// Whether some row has the key.
pub open spec fn has_key(rows: Seq<RowView>, key: Key) -> bool {
    exists|i: int| 0 <= i < rows.len() && #[trigger] rows[i].key() == key
}

/// A position at which the key stands.
pub open spec fn position_of(rows: Seq<RowView>, key: Key) -> int {
    choose|i: int| 0 <= i < rows.len() && #[trigger] rows[i].key() == key
}

/// The rows as a map from key to record.
pub open spec fn rows_map(rows: Seq<RowView>) -> Map<Key, BookmarkView> {
    Map::new(|key: Key| has_key(rows, key), |key: Key| rows[position_of(rows, key)].bookmark)
}

/// What is stored after an upsert: the incoming record, but with the creation
/// time of the record that was there before, if one was.
pub open spec fn merged(previous: Option<BookmarkView>, incoming: BookmarkView) -> BookmarkView {
    match previous {
        Some(p) => BookmarkView { created_at: p.created_at, ..incoming },
        None => incoming,
    }
}

/// The record stored under a key, if any.
pub open spec fn lookup(store: Map<Key, BookmarkView>, key: Key) -> Option<BookmarkView> {
    if store.contains_key(key) {
        Some(store[key])
    } else {
        None
    }
}

/// The store after one upsert.
pub open spec fn upsert_spec(
    store: Map<Key, BookmarkView>,
    user_id: Seq<char>,
    incoming: BookmarkView,
) -> Map<Key, BookmarkView> {
    let key = (user_id, incoming.id);
    store.insert(key, merged(lookup(store, key), incoming))
}

/// The store after the upserts of a batch, applied in order.
pub open spec fn bulk_upsert_spec(
    store: Map<Key, BookmarkView>,
    user_id: Seq<char>,
    batch: Seq<BookmarkView>,
) -> Map<Key, BookmarkView>
    decreases batch.len(),
{
    if batch.len() == 0 {
        store
    } else {
        upsert_spec(bulk_upsert_spec(store, user_id, batch.drop_last()), user_id, batch.last())
    }
}

/// The value of an optional cursor.
pub open spec fn cursor_view(cursor: Option<&str>) -> Option<Seq<char>> {
    match cursor {
        Some(c) => Some(c@),
        None => None,
    }
}

/// The value of an optional owned cursor.
pub open spec fn next_view(cursor: Option<String>) -> Option<Seq<char>> {
    match cursor {
        Some(c) => Some(c@),
        None => None,
    }
}

/// Whether a range read takes the row: it belongs to the user, was modified
/// after `since`, and its id comes strictly after the cursor, if there is one.
pub open spec fn selected(
    row: RowView,
    user_id: Seq<char>,
    since: i64,
    cursor: Option<Seq<char>>,
) -> bool {
    &&& row.user_id == user_id
    &&& row.bookmark.updated_at > since
    &&& match cursor {
        Some(c) => text_before(c, row.bookmark.id),
        None => true,
    }
}

/// The records of the rows that a range read takes, in the order of the rows.
pub open spec fn select(
    rows: Seq<RowView>,
    user_id: Seq<char>,
    since: i64,
    cursor: Option<Seq<char>>,
) -> Seq<BookmarkView>
    decreases rows.len(),
{
    if rows.len() == 0 {
        Seq::empty()
    } else {
        let front = select(rows.drop_last(), user_id, since, cursor);
        if selected(rows.last(), user_id, since, cursor) {
            front.push(rows.last().bookmark)
        } else {
            front
        }
    }
}

/// One page of a range read: the first `limit` of the selected records.
pub open spec fn page_spec(
    rows: Seq<RowView>,
    user_id: Seq<char>,
    since: i64,
    cursor: Option<Seq<char>>,
    limit: int,
) -> Seq<BookmarkView> {
    let all = select(rows, user_id, since, cursor);
    if 0 <= limit < all.len() {
        all.take(limit)
    } else {
        all
    }
}

/// The cursor that goes with a page: the id of its last record where the page
/// is full, so that more may follow; none where the page is the last one.
pub open spec fn next_cursor_spec(page: Seq<BookmarkView>, limit: int) -> Option<Seq<char>> {
    if page.len() == limit && page.len() > 0 {
        Some(page.last().id)
    } else {
        None
    }
}

/// What a client has after it read page after page, each time from the
/// cursor that came with the page before, until no cursor came.
pub open spec fn pull_all(
    rows: Seq<RowView>,
    user_id: Seq<char>,
    since: i64,
    cursor: Option<Seq<char>>,
    limit: int,
) -> Seq<BookmarkView>
    decreases select(rows, user_id, since, cursor).len(),
    when sorted(rows) && limit >= 1
    via pull_all_terminates
{
    let page = page_spec(rows, user_id, since, cursor, limit);
    match next_cursor_spec(page, limit) {
        None => page,
        Some(next) => page + pull_all(rows, user_id, since, Some(next), limit),
    }
}

#[via_fn]
proof fn pull_all_terminates(
    rows: Seq<RowView>,
    user_id: Seq<char>,
    since: i64,
    cursor: Option<Seq<char>>,
    limit: int,
) {
    let page = page_spec(rows, user_id, since, cursor, limit);
    if next_cursor_spec(page, limit) is Some {
        lemma_select_after(rows, user_id, since, cursor, limit - 1);
    }
}

/// Ids ascend strictly along the sequence.
pub open spec fn ascending(records: Seq<BookmarkView>) -> bool {
    forall|i: int, j: int|
        0 <= i < j < records.len() ==> text_before(#[trigger] records[i].id, #[trigger] records[j].id)
}

pub proof fn lemma_key_before_irreflexive(a: Key)
    ensures
        !key_before(a, a),
{
    lemma_text_before_irreflexive(a.0);
    lemma_text_before_irreflexive(a.1);
}

pub proof fn lemma_key_before_asymmetric(a: Key, b: Key)
    requires
        key_before(a, b),
    ensures
        !key_before(b, a),
        a != b,
{
    lemma_text_before_irreflexive(a.0);
    lemma_text_before_irreflexive(a.1);
    if text_before(a.0, b.0) {
        lemma_text_before_asymmetric(a.0, b.0);
    } else {
        lemma_text_before_asymmetric(a.1, b.1);
    }
}

pub proof fn lemma_key_before_transitive(a: Key, b: Key, c: Key)
    requires
        key_before(a, b),
        key_before(b, c),
    ensures
        key_before(a, c),
{
    if text_before(a.0, b.0) && text_before(b.0, c.0) {
        lemma_text_before_transitive(a.0, b.0, c.0);
    } else if a.0 == b.0 && b.0 == c.0 {
        lemma_text_before_transitive(a.1, b.1, c.1);
    }
}

/// In sorted rows a key stands at one position only, and the map holds there
/// what the row holds.
pub proof fn lemma_row_in_map(rows: Seq<RowView>, i: int)
    requires
        sorted(rows),
        0 <= i < rows.len(),
    ensures
        has_key(rows, rows[i].key()),
        position_of(rows, rows[i].key()) == i,
        rows_map(rows).contains_key(rows[i].key()),
        rows_map(rows)[rows[i].key()] == rows[i].bookmark,
{
    let key = rows[i].key();
    let p = position_of(rows, key);
    if p < i {
        lemma_key_before_irreflexive(key);
        assert(key_before(rows[p].key(), rows[i].key()));
    } else if i < p {
        lemma_key_before_irreflexive(key);
        assert(key_before(rows[i].key(), rows[p].key()));
    }
}

/// Putting a row with a new key at its place keeps the rows sorted and adds
/// one entry to the map.
pub proof fn lemma_insert_row(rows: Seq<RowView>, at: int, row: RowView)
    requires
        sorted(rows),
        0 <= at <= rows.len(),
        forall|i: int| 0 <= i < at ==> key_before(#[trigger] rows[i].key(), row.key()),
        forall|i: int| at <= i < rows.len() ==> key_before(row.key(), #[trigger] rows[i].key()),
    ensures
        sorted(rows.insert(at, row)),
        !rows_map(rows).contains_key(row.key()),
        rows_map(rows.insert(at, row)) == rows_map(rows).insert(row.key(), row.bookmark),
{
    let after = rows.insert(at, row);
    assert forall|i: int, j: int| 0 <= i < j < after.len() implies key_before(
        #[trigger] after[i].key(),
        #[trigger] after[j].key(),
    ) by {
        let oi = if i < at { i } else { i - 1 };
        let oj = if j < at { j } else { j - 1 };
        if i == at {
            assert(after[j] == rows[oj]);
        } else if j == at {
            assert(after[i] == rows[oi]);
        } else {
            assert(after[i] == rows[oi]);
            assert(after[j] == rows[oj]);
            assert(key_before(rows[oi].key(), rows[oj].key()));
        }
    }
    if has_key(rows, row.key()) {
        let p = position_of(rows, row.key());
        lemma_key_before_irreflexive(row.key());
        assert(key_before(rows[p].key(), row.key()) || key_before(row.key(), rows[p].key()));
    }
    let lhs = rows_map(after);
    let rhs = rows_map(rows).insert(row.key(), row.bookmark);
    assert forall|key: Key| lhs.contains_key(key) <==> rhs.contains_key(key) by {
        if lhs.contains_key(key) {
            let p = position_of(after, key);
            if p != at {
                let o = if p < at { p } else { p - 1 };
                assert(rows[o].key() == key);
            }
        }
        if rhs.contains_key(key) {
            if key == row.key() {
                assert(after[at].key() == key);
            } else {
                let o = position_of(rows, key);
                let p = if o < at { o } else { o + 1 };
                assert(after[p].key() == key);
            }
        }
    }
    assert forall|key: Key| lhs.contains_key(key) implies lhs[key] == rhs[key] by {
        let p = position_of(after, key);
        lemma_row_in_map(after, p);
        if p != at {
            let o = if p < at { p } else { p - 1 };
            assert(rows[o] == after[p]);
            lemma_row_in_map(rows, o);
            lemma_key_before_irreflexive(key);
            assert(key != row.key()) by {
                if key == row.key() {
                    assert(key_before(rows[o].key(), row.key()) || key_before(row.key(), rows[o].key()));
                }
            }
        }
    }
    assert(lhs =~= rhs);
}

/// Replacing a row by one with the same key keeps the rows sorted and
/// replaces one entry of the map.
pub proof fn lemma_replace_row(rows: Seq<RowView>, at: int, row: RowView)
    requires
        sorted(rows),
        0 <= at < rows.len(),
        rows[at].key() == row.key(),
    ensures
        sorted(rows.update(at, row)),
        rows_map(rows).contains_key(row.key()),
        rows_map(rows)[row.key()] == rows[at].bookmark,
        rows_map(rows.update(at, row)) == rows_map(rows).insert(row.key(), row.bookmark),
{
    let after = rows.update(at, row);
    assert forall|i: int, j: int| 0 <= i < j < after.len() implies key_before(
        #[trigger] after[i].key(),
        #[trigger] after[j].key(),
    ) by {
        assert(after[i].key() == rows[i].key());
        assert(after[j].key() == rows[j].key());
    }
    lemma_row_in_map(rows, at);
    let lhs = rows_map(after);
    let rhs = rows_map(rows).insert(row.key(), row.bookmark);
    assert forall|key: Key| lhs.contains_key(key) <==> rhs.contains_key(key) by {
        if lhs.contains_key(key) {
            let p = position_of(after, key);
            assert(rows[p].key() == key);
        }
        if rhs.contains_key(key) {
            if key == row.key() {
                assert(after[at].key() == key);
            } else {
                let o = position_of(rows, key);
                assert(after[o].key() == key);
            }
        }
    }
    assert forall|key: Key| lhs.contains_key(key) implies lhs[key] == rhs[key] by {
        let p = position_of(after, key);
        lemma_row_in_map(after, p);
        if p != at {
            assert(rows[p] == after[p]);
            lemma_row_in_map(rows, p);
            lemma_row_in_map(rows, at);
        }
    }
    assert(lhs =~= rhs);
}

/// One stored record with its owner.
struct Row {
    user_id: String,
    bookmark: Bookmark,
}

impl View for Row {
    type V = RowView;

    closed spec fn view(&self) -> RowView {
        RowView { user_id: self.user_id@, bookmark: self.bookmark@ }
    }
}

/// Ranks the key of `row` against the key made of `user_id` and `id`.
fn rank_row(row: &Row, user_id: &str, id: &str) -> (r: Rank)
    ensures
        (r is Before) == key_before(row@.key(), (user_id@, id@)),
        (r is Same) == (row@.key() == (user_id@, id@)),
        (r is After) == key_before((user_id@, id@), row@.key()),
{
    match text_rank(row.user_id.as_str(), user_id) {
        Rank::Before => Rank::Before,
        Rank::After => Rank::After,
        Rank::Same => text_rank(row.bookmark.id.as_str(), id),
    }
}

/// The cursor that goes with a page read under `limit`: the id of the last
/// record where the page holds exactly `limit` records, none otherwise.
pub fn next_cursor(records: &Vec<Bookmark>, limit: i64) -> (next: Option<String>)
    ensures
        next_view(next) == next_cursor_spec(views_of(records@), limit as int),
{
    let n = records.len();
    if n > 0 && limit >= 0 && n as u64 == limit as u64 {
        Some(records[n - 1].id.clone())
    } else {
        None
    }
}

/// The bookmark store: for each pair of a user and a bookmark id at most one
/// record. Its value is the map from such pairs to records.
pub struct Bookmarks {
    rows: Vec<Row>,
}

impl View for Bookmarks {
    type V = Map<Key, BookmarkView>;

    open spec fn view(&self) -> Map<Key, BookmarkView> {
        rows_map(self.listing())
    }
}

impl Bookmarks {
    /// The stored records in the order in which the store hands them out:
    /// ascending by user id, then by bookmark id.
    pub closed spec fn listing(&self) -> Seq<RowView> {
        self.rows@.map_values(|r: Row| r@)
    }

    #[verifier::type_invariant]
    spec fn well_formed(&self) -> bool {
        sorted(self.listing())
    }

    /// An empty store.
    pub fn new() -> (store: Bookmarks)
        ensures
            store@ == Map::<Key, BookmarkView>::empty(),
            store.listing() == Seq::<RowView>::empty(),
    {
        let store = Bookmarks { rows: Vec::new() };
        proof {
            assert(store.listing() =~= Seq::<RowView>::empty());
            assert(store@ =~= Map::<Key, BookmarkView>::empty());
        }
        store
    }

    /// Number of records, over all users.
    pub fn len(&self) -> (n: usize)
        ensures
            n == self.listing().len(),
            n == self@.dom().len(),
            self@.dom().finite(),
    {
        proof {
            use_type_invariant(self);
            lemma_map_size(self.listing());
        }
        self.rows.len()
    }

    /// Finds the place of a key: the position at which it stands, or the
    /// position at which a row with that key would have to be put.
    fn locate(&self, user_id: &str, id: &str) -> (place: (usize, bool))
        ensures
            sorted(self.listing()),
            place.0 <= self.listing().len(),
            place.1 ==> place.0 < self.listing().len() && self.listing()[place.0 as int].key() == (
                user_id@,
                id@,
            ),
            !place.1 ==> !has_key(self.listing(), (user_id@, id@)),
            forall|j: int|
                0 <= j < place.0 ==> key_before(
                    #[trigger] self.listing()[j].key(),
                    (user_id@, id@),
                ),
            !place.1 ==> forall|j: int|
                place.0 <= j < self.listing().len() ==> key_before(
                    (user_id@, id@),
                    #[trigger] self.listing()[j].key(),
                ),
    {
        proof {
            use_type_invariant(self);
        }
        let ghost rows = self.listing();
        let ghost target = (user_id@, id@);
        let mut low: usize = 0;
        let mut high: usize = self.rows.len();
        while low < high
            invariant
                rows == self.listing(),
                sorted(rows),
                target == (user_id@, id@),
                low <= high <= rows.len(),
                rows.len() == self.rows.len(),
                forall|j: int| 0 <= j < low ==> key_before(#[trigger] rows[j].key(), target),
                forall|j: int| high <= j < rows.len() ==> key_before(target, #[trigger] rows[j].key()),
            decreases high - low,
        {
            let middle = low + (high - low) / 2;
            assert(rows[middle as int] == self.rows[middle as int]@);
            match rank_row(&self.rows[middle], user_id, id) {
                Rank::Same => {
                    return (middle, true);
                },
                Rank::Before => {
                    assert forall|j: int| 0 <= j < middle + 1 implies key_before(
                        #[trigger] rows[j].key(),
                        target,
                    ) by {
                        if j < middle {
                            lemma_key_before_transitive(rows[j].key(), rows[middle as int].key(), target);
                        }
                    }
                    low = middle + 1;
                },
                Rank::After => {
                    assert forall|j: int| middle <= j < rows.len() implies key_before(
                        target,
                        #[trigger] rows[j].key(),
                    ) by {
                        if middle < j {
                            lemma_key_before_transitive(target, rows[middle as int].key(), rows[j].key());
                        }
                    }
                    high = middle;
                },
            }
        }
        proof {
            if has_key(rows, target) {
                let p = position_of(rows, target);
                lemma_key_before_irreflexive(target);
                assert(key_before(rows[p].key(), target) || key_before(target, rows[p].key()));
            }
        }
        (low, false)
    }

    /// Writes one record. Where the user has no record with the bookmark's
    /// id, the bookmark is stored as it is; where there is one, its title,
    /// address, deletion mark and modification time are overwritten, whatever
    /// the two modification times are, and its creation time stays.
    pub fn upsert(&mut self, user_id: &str, bookmark: &Bookmark) -> (r: Result<(), StorageError>)
        ensures
            r is Ok,
            final(self)@ == upsert_spec(old(self)@, user_id@, bookmark@),
            sorted(final(self).listing()),
    {
        let ghost before = self.listing();
        let (at, found) = self.locate(user_id, bookmark.id.as_str());
        if found {
            let created_at = self.rows[at].bookmark.created_at;
            let row = Row {
                user_id: user_id.to_owned(),
                bookmark: Bookmark {
                    id: bookmark.id.clone(),
                    title: bookmark.title.clone(),
                    url: bookmark.url.clone(),
                    created_at,
                    updated_at: bookmark.updated_at,
                    deleted_at: bookmark.deleted_at,
                },
            };
            proof {
                assert(before[at as int] == self.rows[at as int]@);
                lemma_replace_row(before, at as int, row@);
            }
            self.replace_at(at, row);
        } else {
            let row = Row { user_id: user_id.to_owned(), bookmark: bookmark.clone() };
            proof {
                lemma_insert_row(before, at as int, row@);
            }
            self.insert_at(at, row);
        }
        Ok(())
    }

    /// Reads one page of at most `limit` records. A negative limit is turned
    /// down and nothing is read.
    pub fn get_all(
        &self,
        user_id: &str,
        last_synced_at: Timestamp,
        cursor: Option<&str>,
        limit: i64,
    ) -> (r: Result<Vec<Bookmark>, StorageError>)
        ensures
            sorted(self.listing()),
            limit < 0 ==> r == Err::<Vec<Bookmark>, StorageError>(StorageError::NegativeLimit),
            limit >= 0 ==> r is Ok && views_of(r->Ok_0@) == page_spec(
                self.listing(),
                user_id@,
                last_synced_at,
                cursor_view(cursor),
                limit as int,
            ),
    {
        proof {
            use_type_invariant(self);
        }
        if limit < 0 {
            return Err(StorageError::NegativeLimit);
        }
        let ghost rows = self.listing();
        let ghost from = cursor_view(cursor);
        let bound: u64 = limit as u64;
        let mut page: Vec<Bookmark> = Vec::new();
        let mut i: usize = 0;
        proof {
            assert(views_of(page@) =~= select(rows.take(0), user_id@, last_synced_at, from));
        }
        while i < self.rows.len() && (page.len() as u64) < bound
            invariant
                rows == self.listing(),
                rows.len() == self.rows.len(),
                from == cursor_view(cursor),
                bound == limit,
                i <= rows.len(),
                page.len() <= bound,
                views_of(page@) == select(rows.take(i as int), user_id@, last_synced_at, from),
            decreases rows.len() - i,
        {
            let row = &self.rows[i];
            proof {
                assert(rows[i as int] == row@);
                lemma_select_step(rows, user_id@, last_synced_at, from, i as int);
            }
            let wanted = text_equal(row.user_id.as_str(), user_id) && row.bookmark.updated_at
                > last_synced_at && match cursor {
                Some(c) => match text_rank(c, row.bookmark.id.as_str()) {
                    Rank::Before => true,
                    _ => false,
                },
                None => true,
            };
            if wanted {
                let ghost before = page@;
                let record = row.bookmark.clone();
                page.push(record);
                assert(views_of(page@) =~= views_of(before).push(row@.bookmark));
            }
            i += 1;
        }
        proof {
            lemma_select_prefix(rows, user_id@, last_synced_at, from, i as int);
            let all = select(rows, user_id@, last_synced_at, from);
            if i == rows.len() {
                assert(rows.take(i as int) =~= rows);
            } else if all.len() == limit {
                assert(all.take(limit as int) =~= all);
            }
        }
        Ok(page)
    }

    /// Reads one page and says where the next one starts: the records of the
    /// user that were modified after `since`, in ascending order of id,
    /// strictly after `cursor` if one is given, at most `limit` of them; and
    /// with a full page the id of its last record as the next cursor.
    pub fn range_read(&self, user_id: &str, since: Timestamp, cursor: Option<&str>, limit: i64) -> (r:
        Result<(Vec<Bookmark>, Option<String>), StorageError>)
        ensures
            sorted(self.listing()),
            limit < 0 ==> r == Err::<(Vec<Bookmark>, Option<String>), StorageError>(
                StorageError::NegativeLimit,
            ),
            limit >= 0 ==> r is Ok && views_of(r->Ok_0.0@) == page_spec(
                self.listing(),
                user_id@,
                since,
                cursor_view(cursor),
                limit as int,
            ) && next_view(r->Ok_0.1) == next_cursor_spec(views_of(r->Ok_0.0@), limit as int),
    {
        match self.get_all(user_id, since, cursor, limit) {
            Err(e) => Err(e),
            Ok(records) => {
                let next = next_cursor(&records, limit);
                Ok((records, next))
            },
        }
    }

    /// Puts `row` at position `at`.
    fn insert_at(&mut self, at: usize, row: Row)
        requires
            at <= old(self).listing().len(),
            sorted(old(self).listing().insert(at as int, row@)),
        ensures
            final(self).listing() == old(self).listing().insert(at as int, row@),
    {
        let mut rows: Vec<Row> = Vec::new();
        assert(rows@.map_values(|r: Row| r@) =~= Seq::<RowView>::empty());
        core::mem::swap(&mut self.rows, &mut rows);
        rows.insert(at, row);
        assert(rows@.map_values(|r: Row| r@) =~= old(self).listing().insert(at as int, row@));
        core::mem::swap(&mut self.rows, &mut rows);
    }

    /// Puts `row` in place of the row at position `at`.
    fn replace_at(&mut self, at: usize, row: Row)
        requires
            at < old(self).listing().len(),
            sorted(old(self).listing().update(at as int, row@)),
        ensures
            final(self).listing() == old(self).listing().update(at as int, row@),
    {
        let mut rows: Vec<Row> = Vec::new();
        assert(rows@.map_values(|r: Row| r@) =~= Seq::<RowView>::empty());
        core::mem::swap(&mut self.rows, &mut rows);
        rows[at] = row;
        assert(rows@.map_values(|r: Row| r@) =~= old(self).listing().update(at as int, row@));
        core::mem::swap(&mut self.rows, &mut rows);
    }

    /// Writes a batch of records as one write: the upserts of its members in
    /// the order of the batch. An empty batch changes nothing.
    pub fn bulk_upsert(&mut self, user_id: &str, bookmarks: &[Bookmark]) -> (r: Result<
        (),
        StorageError,
    >)
        ensures
            r is Ok,
            final(self)@ == bulk_upsert_spec(old(self)@, user_id@, views_of(bookmarks@)),
            sorted(final(self).listing()),
    {
        proof {
            use_type_invariant(&*self);
        }
        let ghost batch = views_of(bookmarks@);
        let mut i: usize = 0;
        while i < bookmarks.len()
            invariant
                i <= bookmarks.len(),
                batch == views_of(bookmarks@),
                sorted(self.listing()),
                self@ == bulk_upsert_spec(old(self)@, user_id@, batch.take(i as int)),
            decreases bookmarks.len() - i,
        {
            let _ = self.upsert(user_id, &bookmarks[i]);
            proof {
                assert(batch.take(i as int + 1).drop_last() =~= batch.take(i as int));
                assert(batch.take(i as int + 1).last() == bookmarks[i as int]@);
            }
            i += 1;
        }
        proof {
            assert(batch.take(i as int) =~= batch);
        }
        Ok(())
    }
}

/// A prefix of sorted rows is sorted.
pub proof fn lemma_sorted_take(rows: Seq<RowView>, n: int)
    requires
        sorted(rows),
        0 <= n <= rows.len(),
    ensures
        sorted(rows.take(n)),
{
    let front = rows.take(n);
    assert forall|i: int, j: int| 0 <= i < j < front.len() implies key_before(
        #[trigger] front[i].key(),
        #[trigger] front[j].key(),
    ) by {
        assert(front[i] == rows[i]);
        assert(front[j] == rows[j]);
    }
}

/// Reading one row further adds that row's record if it is selected.
pub proof fn lemma_select_step(
    rows: Seq<RowView>,
    user_id: Seq<char>,
    since: i64,
    cursor: Option<Seq<char>>,
    n: int,
)
    requires
        0 <= n < rows.len(),
    ensures
        select(rows.take(n + 1), user_id, since, cursor) == if selected(
            rows[n],
            user_id,
            since,
            cursor,
        ) {
            select(rows.take(n), user_id, since, cursor).push(rows[n].bookmark)
        } else {
            select(rows.take(n), user_id, since, cursor)
        },
{
    assert(rows.take(n + 1).drop_last() =~= rows.take(n));
    assert(rows.take(n + 1).last() == rows[n]);
}

/// What is selected from the first `n` rows opens what is selected from all.
pub proof fn lemma_select_prefix(
    rows: Seq<RowView>,
    user_id: Seq<char>,
    since: i64,
    cursor: Option<Seq<char>>,
    n: int,
)
    requires
        0 <= n <= rows.len(),
    ensures
        select(rows.take(n), user_id, since, cursor).len() <= select(
            rows,
            user_id,
            since,
            cursor,
        ).len(),
        select(rows, user_id, since, cursor).take(
            select(rows.take(n), user_id, since, cursor).len() as int,
        ) == select(rows.take(n), user_id, since, cursor),
    decreases rows.len() - n,
{
    let all = select(rows, user_id, since, cursor);
    let part = select(rows.take(n), user_id, since, cursor);
    if n == rows.len() {
        assert(rows.take(n) =~= rows);
        assert(all.take(all.len() as int) =~= all);
    } else {
        lemma_select_prefix(rows, user_id, since, cursor, n + 1);
        lemma_select_step(rows, user_id, since, cursor, n);
        let more = select(rows.take(n + 1), user_id, since, cursor);
        assert(all.take(part.len() as int) =~= all.take(more.len() as int).take(part.len() as int));
        assert(more.take(part.len() as int) =~= part);
    }
}

/// Every selected record comes from a selected row and every selected row
/// gives its record; over sorted rows the ids of the selected records ascend.
pub proof fn lemma_select_members(
    rows: Seq<RowView>,
    user_id: Seq<char>,
    since: i64,
    cursor: Option<Seq<char>>,
)
    ensures
        forall|k: int|
            0 <= k < select(rows, user_id, since, cursor).len() ==> exists|i: int|
                0 <= i < rows.len() && selected(rows[i], user_id, since, cursor)
                    && rows[i].bookmark == #[trigger] select(rows, user_id, since, cursor)[k],
        forall|i: int|
            0 <= i < rows.len() && selected(#[trigger] rows[i], user_id, since, cursor) ==> select(
                rows,
                user_id,
                since,
                cursor,
            ).contains(rows[i].bookmark),
        sorted(rows) ==> ascending(select(rows, user_id, since, cursor)),
    decreases rows.len(),
{
    let all = select(rows, user_id, since, cursor);
    if rows.len() > 0 {
        let front = rows.drop_last();
        let last = rows.last();
        let part = select(front, user_id, since, cursor);
        lemma_select_members(front, user_id, since, cursor);
        assert forall|k: int| 0 <= k < all.len() implies exists|i: int|
            0 <= i < rows.len() && selected(rows[i], user_id, since, cursor) && rows[i].bookmark
                == #[trigger] all[k] by {
            if k < part.len() {
                assert(all[k] == part[k]);
                let i = choose|i: int|
                    0 <= i < front.len() && selected(front[i], user_id, since, cursor)
                        && front[i].bookmark == part[k];
                assert(rows[i] == front[i]);
            } else {
                assert(rows[rows.len() - 1].bookmark == all[k]);
            }
        }
        assert forall|i: int|
            0 <= i < rows.len() && selected(
                #[trigger] rows[i],
                user_id,
                since,
                cursor,
            ) implies all.contains(rows[i].bookmark) by {
            if i < front.len() {
                assert(front[i] == rows[i]);
                let k = choose|k: int| 0 <= k < part.len() && part[k] == front[i].bookmark;
                assert(all[k] == part[k]);
            } else {
                assert(all[all.len() - 1] == rows[i].bookmark);
            }
        }
        if sorted(rows) {
            lemma_sorted_take(rows, rows.len() - 1);
            assert(rows.take(rows.len() - 1) =~= front);
            assert forall|a: int, b: int| 0 <= a < b < all.len() implies text_before(
                #[trigger] all[a].id,
                #[trigger] all[b].id,
            ) by {
                if b < part.len() {
                    assert(all[a] == part[a]);
                    assert(all[b] == part[b]);
                } else {
                    assert(all[a] == part[a]);
                    let i = choose|i: int|
                        0 <= i < front.len() && selected(front[i], user_id, since, cursor)
                            && front[i].bookmark == part[a];
                    assert(rows[i] == front[i]);
                    assert(key_before(rows[i].key(), rows[rows.len() - 1].key()));
                    lemma_text_before_irreflexive(user_id);
                }
            }
        }
    }
}

/// Rows of which none is selected give no record.
pub proof fn lemma_select_none(
    rows: Seq<RowView>,
    user_id: Seq<char>,
    since: i64,
    cursor: Option<Seq<char>>,
)
    requires
        forall|i: int| 0 <= i < rows.len() ==> !selected(#[trigger] rows[i], user_id, since, cursor),
    ensures
        select(rows, user_id, since, cursor) == Seq::<BookmarkView>::empty(),
    decreases rows.len(),
{
    if rows.len() > 0 {
        let front = rows.drop_last();
        assert forall|i: int| 0 <= i < front.len() implies !selected(
            #[trigger] front[i],
            user_id,
            since,
            cursor,
        ) by {
            assert(front[i] == rows[i]);
        }
        lemma_select_none(front, user_id, since, cursor);
        assert(!selected(rows[rows.len() - 1], user_id, since, cursor));
    }
}

/// Over sorted rows, reading from the id of the `k`-th selected record on
/// gives exactly the selected records that follow it.
pub proof fn lemma_select_after(
    rows: Seq<RowView>,
    user_id: Seq<char>,
    since: i64,
    cursor: Option<Seq<char>>,
    k: int,
)
    requires
        sorted(rows),
        0 <= k < select(rows, user_id, since, cursor).len(),
    ensures
        select(rows, user_id, since, Some(select(rows, user_id, since, cursor)[k].id)) == select(
            rows,
            user_id,
            since,
            cursor,
        ).skip(k + 1),
    decreases rows.len(),
{
    let all = select(rows, user_id, since, cursor);
    let from = Some(all[k].id);
    let front = rows.drop_last();
    let last = rows.last();
    let part = select(front, user_id, since, cursor);
    lemma_sorted_take(rows, rows.len() - 1);
    assert(rows.take(rows.len() - 1) =~= front);
    lemma_select_members(front, user_id, since, cursor);
    lemma_text_before_irreflexive(user_id);
    if k < part.len() {
        assert(all[k] == part[k]);
        lemma_select_after(front, user_id, since, cursor, k);
        let i = choose|i: int|
            0 <= i < front.len() && selected(front[i], user_id, since, cursor) && front[i].bookmark
                == part[k];
        assert(rows[i] == front[i]);
        assert(key_before(rows[i].key(), rows[rows.len() - 1].key()));
        if last.user_id == user_id {
            assert(text_before(all[k].id, last.bookmark.id));
            if cursor is Some {
                lemma_text_before_transitive(cursor->0, all[k].id, last.bookmark.id);
            }
        }
        assert(selected(last, user_id, since, from) == selected(last, user_id, since, cursor));
        assert(all.skip(k + 1) =~= if selected(last, user_id, since, cursor) {
            part.skip(k + 1).push(last.bookmark)
        } else {
            part.skip(k + 1)
        });
    } else {
        assert(all[k] == last.bookmark);
        assert forall|i: int| 0 <= i < rows.len() implies !selected(
            #[trigger] rows[i],
            user_id,
            since,
            from,
        ) by {
            if i < rows.len() - 1 {
                assert(key_before(rows[i].key(), rows[rows.len() - 1].key()));
                if rows[i].user_id == user_id {
                    lemma_text_before_asymmetric(rows[i].bookmark.id, last.bookmark.id);
                }
            } else {
                lemma_text_before_irreflexive(last.bookmark.id);
            }
        }
        lemma_select_none(rows, user_id, since, from);
        assert(all.skip(k + 1) =~= Seq::<BookmarkView>::empty());
    }
}

/// Reading page after page from any cursor on gives what one unbounded read
/// from that cursor gives.
pub proof fn lemma_pull_all(
    rows: Seq<RowView>,
    user_id: Seq<char>,
    since: i64,
    cursor: Option<Seq<char>>,
    limit: int,
)
    requires
        sorted(rows),
        limit >= 1,
    ensures
        pull_all(rows, user_id, since, cursor, limit) == select(rows, user_id, since, cursor),
    decreases select(rows, user_id, since, cursor).len(),
{
    let all = select(rows, user_id, since, cursor);
    let page = page_spec(rows, user_id, since, cursor, limit);
    match next_cursor_spec(page, limit) {
        None => {},
        Some(next) => {
            lemma_select_after(rows, user_id, since, cursor, limit - 1);
            lemma_pull_all(rows, user_id, since, Some(next), limit);
            assert(all =~= page + all.skip(limit));
        },
    }
}

/// Pagination is complete: for a fixed `since` and a limit of at least one,
/// the pages read one after the other from the start, put together, hold
/// every record of the user that was modified after `since`, each once, in
/// ascending order of id, and nothing else.
pub proof fn lemma_pagination_complete(
    rows: Seq<RowView>,
    user_id: Seq<char>,
    since: i64,
    limit: int,
)
    requires
        sorted(rows),
        limit >= 1,
    ensures
        ascending(pull_all(rows, user_id, since, None, limit)),
        forall|k: int|
            #![trigger pull_all(rows, user_id, since, None, limit)[k]]
            0 <= k < pull_all(rows, user_id, since, None, limit).len() ==> {
                let record = pull_all(rows, user_id, since, None, limit)[k];
                &&& record.updated_at > since
                &&& lookup(rows_map(rows), (user_id, record.id)) == Some(record)
            },
        forall|id: Seq<char>|
            #![trigger rows_map(rows)[(user_id, id)]]
            rows_map(rows).contains_key((user_id, id)) && rows_map(rows)[(user_id, id)].updated_at
                > since ==> pull_all(rows, user_id, since, None, limit).contains(
                rows_map(rows)[(user_id, id)],
            ),
{
    lemma_pull_all(rows, user_id, since, None, limit);
    lemma_select_all(rows, user_id, since);
}

/// An unbounded read from the start gives every record of the user that was
/// modified after `since`, each once, in ascending order of id, and nothing
/// else.
pub proof fn lemma_select_all(rows: Seq<RowView>, user_id: Seq<char>, since: i64)
    requires
        sorted(rows),
    ensures
        ascending(select(rows, user_id, since, None)),
        forall|k: int|
            #![trigger select(rows, user_id, since, None)[k]]
            0 <= k < select(rows, user_id, since, None).len() ==> {
                let record = select(rows, user_id, since, None)[k];
                &&& record.updated_at > since
                &&& lookup(rows_map(rows), (user_id, record.id)) == Some(record)
            },
        forall|id: Seq<char>|
            #![trigger rows_map(rows)[(user_id, id)]]
            rows_map(rows).contains_key((user_id, id)) && rows_map(rows)[(user_id, id)].updated_at
                > since ==> select(rows, user_id, since, None).contains(
                rows_map(rows)[(user_id, id)],
            ),
{
    let all = select(rows, user_id, since, None);
    lemma_select_members(rows, user_id, since, None);
    assert forall|k: int| 0 <= k < all.len() implies {
        let record = #[trigger] all[k];
        &&& record.updated_at > since
        &&& lookup(rows_map(rows), (user_id, record.id)) == Some(record)
    } by {
        let i = choose|i: int|
            0 <= i < rows.len() && selected(rows[i], user_id, since, None) && rows[i].bookmark
                == all[k];
        lemma_row_in_map(rows, i);
    }
    assert forall|id: Seq<char>|
        rows_map(rows).contains_key((user_id, id)) && (#[trigger] rows_map(rows)[(
            user_id,
            id,
        )]).updated_at > since implies all.contains(rows_map(rows)[(user_id, id)]) by {
        let p = position_of(rows, (user_id, id));
        lemma_row_in_map(rows, p);
        assert(selected(rows[p], user_id, since, None));
    }
}

/// The fields that an upsert overwrites agree.
pub open spec fn same_content(a: BookmarkView, b: BookmarkView) -> bool {
    &&& a.id == b.id
    &&& a.title == b.title
    &&& a.url == b.url
    &&& a.updated_at == b.updated_at
    &&& a.deleted_at == b.deleted_at
}

/// An upsert is idempotent: writing the same bookmark a second time leaves
/// the store as the first write left it.
pub proof fn lemma_upsert_idempotent(
    store: Map<Key, BookmarkView>,
    user_id: Seq<char>,
    bookmark: BookmarkView,
)
    ensures
        upsert_spec(upsert_spec(store, user_id, bookmark), user_id, bookmark) == upsert_spec(
            store,
            user_id,
            bookmark,
        ),
{
    let once = upsert_spec(store, user_id, bookmark);
    assert(upsert_spec(once, user_id, bookmark) =~= once);
}

/// An upsert touches the record under its own key only.
pub proof fn lemma_upsert_is_local(
    store: Map<Key, BookmarkView>,
    user_id: Seq<char>,
    bookmark: BookmarkView,
    other: Key,
)
    requires
        other != (user_id, bookmark.id),
    ensures
        lookup(upsert_spec(store, user_id, bookmark), other) == lookup(store, other),
{
}

/// The last write wins: of two upserts under one key, the one that lands
/// second decides every field but the creation time, whichever of the two
/// carries the later modification time. The store compares no timestamps and
/// does not put right a write that lands late.
pub proof fn lemma_last_write_wins(
    store: Map<Key, BookmarkView>,
    user_id: Seq<char>,
    first: BookmarkView,
    second: BookmarkView,
)
    requires
        first.id == second.id,
    ensures
        ({
            let key = (user_id, second.id);
            let stored = upsert_spec(upsert_spec(store, user_id, first), user_id, second)[key];
            &&& upsert_spec(upsert_spec(store, user_id, first), user_id, second).contains_key(key)
            &&& same_content(stored, second)
            &&& stored.created_at == merged(lookup(store, key), first).created_at
            &&& lookup(store, key) is None && first.created_at == second.created_at ==> stored
                == second
            &&& first.updated_at <= second.updated_at ==> stored.updated_at >= first.updated_at
                && stored.updated_at >= second.updated_at
            &&& second.updated_at < first.updated_at ==> stored.updated_at < first.updated_at
            &&& upsert_spec(upsert_spec(store, user_id, first), user_id, second) == upsert_spec(
                store,
                user_id,
                BookmarkView { created_at: first.created_at, ..second },
            )
        }),
{
    let key = (user_id, second.id);
    let both = upsert_spec(upsert_spec(store, user_id, first), user_id, second);
    let direct = upsert_spec(store, user_id, BookmarkView { created_at: first.created_at, ..second });
    assert(both =~= direct);
}

/// The position of the last bookmark of the batch with the given id, or `-1`
/// where the batch has none.
pub open spec fn last_with_id(batch: Seq<BookmarkView>, id: Seq<char>) -> int
    decreases batch.len(),
{
    if batch.len() == 0 {
        -1
    } else if batch.last().id == id {
        batch.len() - 1
    } else {
        last_with_id(batch.drop_last(), id)
    }
}

/// The position of the first bookmark of the batch with the given id, or
/// `-1` where the batch has none.
pub open spec fn first_with_id(batch: Seq<BookmarkView>, id: Seq<char>) -> int
    decreases batch.len(),
{
    if batch.len() == 0 {
        -1
    } else if first_with_id(batch.drop_last(), id) >= 0 {
        first_with_id(batch.drop_last(), id)
    } else if batch.last().id == id {
        batch.len() - 1
    } else {
        -1
    }
}

/// What a batch leaves under one id of its user: nothing new where the batch
/// does not name the id; otherwise the last bookmark of the batch with that
/// id, with the creation time of the record that was there before or, where
/// there was none, of the first bookmark of the batch with that id.
pub open spec fn bulk_entry(
    store: Map<Key, BookmarkView>,
    user_id: Seq<char>,
    batch: Seq<BookmarkView>,
    id: Seq<char>,
) -> Option<BookmarkView> {
    let last = last_with_id(batch, id);
    let first = first_with_id(batch, id);
    if last < 0 {
        lookup(store, (user_id, id))
    } else {
        Some(
            BookmarkView {
                created_at: match lookup(store, (user_id, id)) {
                    Some(previous) => previous.created_at,
                    None => batch[first].created_at,
                },
                ..batch[last]
            },
        )
    }
}

/// The two positions lie in the batch, bear the id, and no bookmark with the
/// id stands before the first or after the last.
pub proof fn lemma_positions_with_id(batch: Seq<BookmarkView>, id: Seq<char>)
    ensures
        (last_with_id(batch, id) < 0) == (first_with_id(batch, id) < 0),
        last_with_id(batch, id) < 0 ==> forall|j: int|
            0 <= j < batch.len() ==> (#[trigger] batch[j]).id != id,
        last_with_id(batch, id) >= 0 ==> {
            &&& 0 <= first_with_id(batch, id) <= last_with_id(batch, id) < batch.len()
            &&& batch[first_with_id(batch, id)].id == id
            &&& batch[last_with_id(batch, id)].id == id
            &&& forall|j: int|
                last_with_id(batch, id) < j < batch.len() ==> (#[trigger] batch[j]).id != id
            &&& forall|j: int| 0 <= j < first_with_id(batch, id) ==> (#[trigger] batch[j]).id != id
        },
    decreases batch.len(),
{
    if batch.len() > 0 {
        let front = batch.drop_last();
        lemma_positions_with_id(front, id);
        assert forall|j: int| 0 <= j < front.len() implies front[j] == batch[j] by {}
        if last_with_id(batch, id) < 0 {
            assert forall|j: int| 0 <= j < batch.len() implies (#[trigger] batch[j]).id != id by {
                if j < front.len() {
                    assert(front[j].id != id);
                }
            }
        } else {
            assert forall|j: int| 0 <= j < first_with_id(batch, id) implies (#[trigger] batch[j]).id
                != id by {
                if j < front.len() {
                    assert(front[j].id != id);
                }
            }
            assert forall|j: int| last_with_id(batch, id) < j < batch.len() implies (
            #[trigger] batch[j]).id != id by {
                if j < front.len() {
                    assert(front[j].id != id);
                }
            }
        }
    }
}

/// What a batch leaves in the store, key by key: the records of other users
/// stay, and under each id of the user stands what [`bulk_entry`] says.
pub proof fn lemma_bulk_upsert_entries(
    store: Map<Key, BookmarkView>,
    user_id: Seq<char>,
    batch: Seq<BookmarkView>,
)
    ensures
        forall|key: Key|
            key.0 != user_id ==> #[trigger] lookup(bulk_upsert_spec(store, user_id, batch), key)
                == lookup(store, key),
        forall|id: Seq<char>|
            #[trigger] lookup(bulk_upsert_spec(store, user_id, batch), (user_id, id)) == bulk_entry(
                store,
                user_id,
                batch,
                id,
            ),
    decreases batch.len(),
{
    if batch.len() > 0 {
        let front = batch.drop_last();
        let x = batch.last();
        lemma_bulk_upsert_entries(store, user_id, front);
        let middle = bulk_upsert_spec(store, user_id, front);
        let after = bulk_upsert_spec(store, user_id, batch);
        assert forall|key: Key| key.0 != user_id implies #[trigger] lookup(after, key) == lookup(
            store,
            key,
        ) by {
            assert(lookup(middle, key) == lookup(store, key));
        }
        assert forall|id: Seq<char>| #[trigger]
            lookup(after, (user_id, id)) == bulk_entry(store, user_id, batch, id) by {
            assert(lookup(middle, (user_id, id)) == bulk_entry(store, user_id, front, id));
            lemma_positions_with_id(front, id);
            lemma_positions_with_id(batch, id);
            if x.id == id {
                if last_with_id(front, id) >= 0 {
                    assert(front[first_with_id(front, id)] == batch[first_with_id(front, id)]);
                }
            } else {
                if last_with_id(front, id) >= 0 {
                    assert(front[first_with_id(front, id)] == batch[first_with_id(front, id)]);
                    assert(front[last_with_id(front, id)] == batch[last_with_id(front, id)]);
                }
            }
        }
    }
}

/// Writing a batch is idempotent: the same batch written a second time
/// leaves the store as the first write left it.
pub proof fn lemma_bulk_upsert_idempotent(
    store: Map<Key, BookmarkView>,
    user_id: Seq<char>,
    batch: Seq<BookmarkView>,
)
    ensures
        bulk_upsert_spec(bulk_upsert_spec(store, user_id, batch), user_id, batch) == bulk_upsert_spec(
            store,
            user_id,
            batch,
        ),
{
    let once = bulk_upsert_spec(store, user_id, batch);
    let twice = bulk_upsert_spec(once, user_id, batch);
    lemma_bulk_upsert_entries(store, user_id, batch);
    lemma_bulk_upsert_entries(once, user_id, batch);
    assert forall|key: Key| lookup(twice, key) == lookup(once, key) by {
        if key.0 == user_id {
            let id = key.1;
            assert(key == (user_id, id));
            assert(lookup(once, (user_id, id)) == bulk_entry(store, user_id, batch, id));
            assert(lookup(twice, (user_id, id)) == bulk_entry(once, user_id, batch, id));
        } else {
            assert(lookup(twice, key) == lookup(once, key));
            assert(lookup(once, key) == lookup(store, key));
        }
    }
    assert forall|key: Key| twice.contains_key(key) == once.contains_key(key) by {
        assert(lookup(twice, key) == lookup(once, key));
    }
    assert forall|key: Key| twice.contains_key(key) implies twice[key] == once[key] by {
        assert(lookup(twice, key) == lookup(once, key));
    }
    assert(twice =~= once);
}

/// Sorted rows are as many as the keys of their map.
pub proof fn lemma_map_size(rows: Seq<RowView>)
    requires
        sorted(rows),
    ensures
        rows_map(rows).dom().finite(),
        rows_map(rows).dom().len() == rows.len(),
    decreases rows.len(),
{
    if rows.len() == 0 {
        assert(rows_map(rows).dom() =~= Set::<Key>::empty());
    } else {
        let front = rows.drop_last();
        let last = rows.last();
        assert(sorted(front)) by {
            assert forall|i: int, j: int| 0 <= i < j < front.len() implies key_before(
                #[trigger] front[i].key(),
                #[trigger] front[j].key(),
            ) by {
                assert(front[i] == rows[i]);
                assert(front[j] == rows[j]);
            }
        }
        lemma_map_size(front);
        assert forall|i: int| 0 <= i < front.len() implies key_before(
            #[trigger] front[i].key(),
            last.key(),
        ) by {
            assert(front[i] == rows[i]);
            assert(key_before(rows[i].key(), rows[rows.len() - 1].key()));
        }
        lemma_insert_row(front, front.len() as int, last);
        assert(front.insert(front.len() as int, last) =~= rows);
        assert(rows_map(rows).dom() =~= rows_map(front).dom().insert(last.key()));
    }
}

/// The listing is determined by the map: two sorted listings of the same
/// records are the same listing. So two stores with equal values hand out
/// the same pages.
pub proof fn lemma_listing_determined(a: Seq<RowView>, b: Seq<RowView>)
    requires
        sorted(a),
        sorted(b),
        rows_map(a) == rows_map(b),
    ensures
        a == b,
    decreases a.len(),
{
    lemma_map_size(a);
    lemma_map_size(b);
    if a.len() == 0 {
        assert(a =~= b);
    } else {
        let n = a.len() as int;
        let front_a = a.drop_last();
        let front_b = b.drop_last();
        let last_a = a.last();
        let last_b = b.last();
        lemma_row_in_map(a, n - 1);
        lemma_row_in_map(b, n - 1);
        if last_a.key() != last_b.key() {
            let p = position_of(b, last_a.key());
            let q = position_of(a, last_b.key());
            assert(key_before(b[p].key(), b[n - 1].key()));
            assert(key_before(a[q].key(), a[n - 1].key()));
            lemma_key_before_asymmetric(last_a.key(), last_b.key());
        }
        assert(last_a == last_b);
        lemma_sorted_take(a, n - 1);
        lemma_sorted_take(b, n - 1);
        assert(a.take(n - 1) =~= front_a);
        assert(b.take(n - 1) =~= front_b);
        assert forall|i: int| 0 <= i < n - 1 implies key_before(
            #[trigger] front_a[i].key(),
            last_a.key(),
        ) by {
            assert(key_before(a[i].key(), a[n - 1].key()));
        }
        assert forall|i: int| 0 <= i < n - 1 implies key_before(
            #[trigger] front_b[i].key(),
            last_b.key(),
        ) by {
            assert(key_before(b[i].key(), b[n - 1].key()));
        }
        lemma_insert_row(front_a, n - 1, last_a);
        lemma_insert_row(front_b, n - 1, last_b);
        assert(front_a.insert(n - 1, last_a) =~= a);
        assert(front_b.insert(n - 1, last_b) =~= b);
        assert(rows_map(front_a) =~= rows_map(a).remove(last_a.key()));
        assert(rows_map(front_b) =~= rows_map(b).remove(last_b.key()));
        lemma_listing_determined(front_a, front_b);
        assert(a =~= front_a.push(last_a));
        assert(b =~= front_b.push(last_b));
    }
}

} // verus!
