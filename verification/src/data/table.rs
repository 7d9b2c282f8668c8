//! Rows found by a key that no two of them share, seen as a map from the key
//! to the row.

use vstd::prelude::*;

verus! {

/// No two rows have the same key.
pub open spec fn distinct<T, K>(rows: Seq<T>, key: spec_fn(T) -> K) -> bool {
    forall|i: int, j: int| 0 <= i < j < rows.len() ==> key(#[trigger] rows[i]) != key(#[trigger] rows[j])
}

/// Whether some row has the key.
pub open spec fn holds<T, K>(rows: Seq<T>, key: spec_fn(T) -> K, k: K) -> bool {
    exists|i: int| 0 <= i < rows.len() && key(#[trigger] rows[i]) == k
}

/// A position at which the key stands.
pub open spec fn place<T, K>(rows: Seq<T>, key: spec_fn(T) -> K, k: K) -> int {
    choose|i: int| 0 <= i < rows.len() && key(#[trigger] rows[i]) == k
}

/// The rows as a map from key to row.
pub open spec fn table<T, K>(rows: Seq<T>, key: spec_fn(T) -> K) -> Map<K, T> {
    Map::new(|k: K| holds(rows, key, k), |k: K| rows[place(rows, key, k)])
}

/// The row under a key, if there is one.
pub open spec fn find<K, T>(map: Map<K, T>, k: K) -> Option<T> {
    if map.contains_key(k) {
        Some(map[k])
    } else {
        None
    }
}

/// With distinct keys, the map holds under a row's key that very row.
pub proof fn lemma_table_at<T, K>(rows: Seq<T>, key: spec_fn(T) -> K, i: int)
    requires
        distinct(rows, key),
        0 <= i < rows.len(),
    ensures
        holds(rows, key, key(rows[i])),
        place(rows, key, key(rows[i])) == i,
        table(rows, key).contains_key(key(rows[i])),
        table(rows, key)[key(rows[i])] == rows[i],
{
    let p = place(rows, key, key(rows[i]));
    if p < i {
        assert(key(rows[p]) != key(rows[i]));
    } else if i < p {
        assert(key(rows[i]) != key(rows[p]));
    }
}

/// A key that no row has is no key of the map.
pub proof fn lemma_table_miss<T, K>(rows: Seq<T>, key: spec_fn(T) -> K, k: K)
    requires
        forall|i: int| 0 <= i < rows.len() ==> key(#[trigger] rows[i]) != k,
    ensures
        !table(rows, key).contains_key(k),
{
    if holds(rows, key, k) {
        let p = place(rows, key, k);
        assert(key(rows[p]) != k);
    }
}

/// Adding a row with a new key adds one entry to the map.
pub proof fn lemma_table_push<T, K>(rows: Seq<T>, key: spec_fn(T) -> K, row: T)
    requires
        distinct(rows, key),
        !table(rows, key).contains_key(key(row)),
    ensures
        distinct(rows.push(row), key),
        table(rows.push(row), key) == table(rows, key).insert(key(row), row),
{
    let after = rows.push(row);
    assert forall|i: int, j: int| 0 <= i < j < after.len() implies key(#[trigger] after[i]) != key(
        #[trigger] after[j],
    ) by {
        assert(after[i] == rows[i]);
        if j < rows.len() {
            assert(after[j] == rows[j]);
        } else {
            assert(holds(rows, key, key(rows[i])));
        }
    }
    let lhs = table(after, key);
    let rhs = table(rows, key).insert(key(row), row);
    assert forall|k: K| lhs.contains_key(k) <==> rhs.contains_key(k) by {
        if lhs.contains_key(k) {
            let p = place(after, key, k);
            if p < rows.len() {
                assert(rows[p] == after[p]);
            }
        }
        if rhs.contains_key(k) {
            if k == key(row) {
                assert(after[rows.len() as int] == row);
            } else {
                let p = place(rows, key, k);
                assert(after[p] == rows[p]);
            }
        }
    }
    assert forall|k: K| lhs.contains_key(k) implies lhs[k] == rhs[k] by {
        let p = place(after, key, k);
        lemma_table_at(after, key, p);
        if p < rows.len() {
            assert(rows[p] == after[p]);
            lemma_table_at(rows, key, p);
        }
    }
    assert(lhs =~= rhs);
}

/// Taking a row out takes its entry out of the map.
pub proof fn lemma_table_remove<T, K>(rows: Seq<T>, key: spec_fn(T) -> K, at: int)
    requires
        distinct(rows, key),
        0 <= at < rows.len(),
    ensures
        distinct(rows.remove(at), key),
        table(rows.remove(at), key) == table(rows, key).remove(key(rows[at])),
{
    let after = rows.remove(at);
    assert forall|i: int, j: int| 0 <= i < j < after.len() implies key(#[trigger] after[i]) != key(
        #[trigger] after[j],
    ) by {
        let oi = if i < at { i } else { i + 1 };
        let oj = if j < at { j } else { j + 1 };
        assert(after[i] == rows[oi]);
        assert(after[j] == rows[oj]);
    }
    let lhs = table(after, key);
    let rhs = table(rows, key).remove(key(rows[at]));
    assert forall|k: K| lhs.contains_key(k) <==> rhs.contains_key(k) by {
        if lhs.contains_key(k) {
            let p = place(after, key, k);
            let o = if p < at { p } else { p + 1 };
            assert(after[p] == rows[o]);
            lemma_table_at(rows, key, o);
            lemma_table_at(rows, key, at);
        }
        if rhs.contains_key(k) {
            let o = place(rows, key, k);
            lemma_table_at(rows, key, at);
            let p = if o < at { o } else { o - 1 };
            assert(after[p] == rows[o]);
        }
    }
    assert forall|k: K| lhs.contains_key(k) implies lhs[k] == rhs[k] by {
        let p = place(after, key, k);
        lemma_table_at(after, key, p);
        let o = if p < at { p } else { p + 1 };
        assert(after[p] == rows[o]);
        lemma_table_at(rows, key, o);
    }
    assert(lhs =~= rhs);
}

} // verus!
