//! Rows with a primary key, and the map they stand for.
//!
//! A table is kept as a list of rows whose keys are pairwise distinct. What
//! the contracts speak of is the map from each key to its row; the lemmas
//! here say what a push and a removal in the list do to that map.

use vstd::prelude::*;

verus! {

/// A row that is found by a text key.
pub trait Keyed {
    /// The primary key of the row.
    spec fn key(&self) -> Seq<char>;
}

/// Whether row `i` of `rows` exists and has key `k`.
pub open spec fn at_key<R: Keyed>(rows: Seq<R>, k: Seq<char>, i: int) -> bool {
    0 <= i < rows.len() && rows[i].key() == k
}

/// Whether no two rows share a key.
pub open spec fn distinct_keys<R: Keyed>(rows: Seq<R>) -> bool {
    forall|i: int, j: int|
        0 <= i < rows.len() && 0 <= j < rows.len() && i != j ==> (#[trigger] rows[i]).key() != (
        #[trigger] rows[j]).key()
}

/// The map from each key that occurs in `rows` to a row that has it: to the
/// row that has it, where the keys are distinct.
pub open spec fn by_key<R: Keyed>(rows: Seq<R>) -> Map<Seq<char>, R> {
    Map::new(
        |k: Seq<char>| exists|i: int| at_key(rows, k, i),
        |k: Seq<char>| rows[choose|i: int| at_key(rows, k, i)],
    )
}

/// Row `i` is what the map holds under that row's key.
pub proof fn lemma_by_key_at<R: Keyed>(rows: Seq<R>, i: int)
    requires
        distinct_keys(rows),
        0 <= i < rows.len(),
    ensures
        by_key(rows).dom().contains(rows[i].key()),
        by_key(rows)[rows[i].key()] == rows[i],
{
    let k = rows[i].key();
    assert(at_key(rows, k, i));
    let j = choose|j: int| at_key(rows, k, j);
    assert(at_key(rows, k, j));
    assert(j == i);
}

/// A key of the map is the key of some row, and the map holds that row.
pub proof fn lemma_by_key_row<R: Keyed>(rows: Seq<R>, k: Seq<char>) -> (i: int)
    requires
        by_key(rows).dom().contains(k),
    ensures
        at_key(rows, k, i),
        by_key(rows)[k] == rows[i],
{
    choose|i: int| at_key(rows, k, i)
}

/// A key that no row has is not in the map.
pub proof fn lemma_by_key_absent<R: Keyed>(rows: Seq<R>, k: Seq<char>)
    requires
        forall|i: int| 0 <= i < rows.len() ==> (#[trigger] rows[i]).key() != k,
    ensures
        !by_key(rows).dom().contains(k),
{
    if by_key(rows).dom().contains(k) {
        let i = choose|i: int| at_key(rows, k, i);
        assert(at_key(rows, k, i));
        assert(rows[i].key() != k);
    }
}

/// The empty list stands for the empty map.
pub proof fn lemma_by_key_empty<R: Keyed>()
    ensures
        by_key(Seq::<R>::empty()) == Map::<Seq<char>, R>::empty(),
        distinct_keys(Seq::<R>::empty()),
{
    let m = by_key(Seq::<R>::empty());
    assert forall|k: Seq<char>| !m.dom().contains(k) by {
        if m.dom().contains(k) {
            let i = choose|i: int| at_key(Seq::<R>::empty(), k, i);
            assert(at_key(Seq::<R>::empty(), k, i));
        }
    }
    assert(m =~= Map::<Seq<char>, R>::empty());
}

/// Pushing a row under a new key inserts it into the map.
pub proof fn lemma_by_key_push<R: Keyed>(rows: Seq<R>, row: R)
    requires
        distinct_keys(rows),
        !by_key(rows).dom().contains(row.key()),
    ensures
        distinct_keys(rows.push(row)),
        by_key(rows.push(row)) == by_key(rows).insert(row.key(), row),
{
    let grown = rows.push(row);
    assert forall|i: int| 0 <= i < rows.len() implies (#[trigger] rows[i]).key() != row.key() by {
        lemma_by_key_at(rows, i);
    }
    assert forall|i: int, j: int|
        0 <= i < grown.len() && 0 <= j < grown.len() && i != j implies (#[trigger] grown[i]).key()
        != (#[trigger] grown[j]).key() by {
        if i < rows.len() {
            assert(grown[i] == rows[i]);
        }
        if j < rows.len() {
            assert(grown[j] == rows[j]);
        }
    }
    let before = by_key(rows).insert(row.key(), row);
    let after = by_key(grown);
    assert forall|k: Seq<char>| before.dom().contains(k) <==> after.dom().contains(k) by {
        if before.dom().contains(k) {
            if k == row.key() {
                assert(at_key(grown, k, rows.len() as int));
            } else {
                let i = lemma_by_key_row(rows, k);
                assert(grown[i] == rows[i]);
                assert(at_key(grown, k, i));
            }
        }
        if after.dom().contains(k) {
            let i = lemma_by_key_row(grown, k);
            if i < rows.len() {
                assert(grown[i] == rows[i]);
                assert(at_key(rows, k, i));
            }
        }
    }
    assert forall|k: Seq<char>| before.dom().contains(k) implies before[k] == after[k] by {
        let i = lemma_by_key_row(grown, k);
        lemma_by_key_at(grown, i);
        if i < rows.len() {
            assert(grown[i] == rows[i]);
            lemma_by_key_at(rows, i);
        }
    }
    assert(before =~= after);
}

/// Removing row `i` removes its key from the map.
pub proof fn lemma_by_key_remove<R: Keyed>(rows: Seq<R>, i: int)
    requires
        distinct_keys(rows),
        0 <= i < rows.len(),
    ensures
        distinct_keys(rows.remove(i)),
        by_key(rows.remove(i)) == by_key(rows).remove(rows[i].key()),
{
    let fewer = rows.remove(i);
    // Row `j` of the shorter list is row `j` or `j + 1` of the longer one.
    assert forall|j: int| 0 <= j < fewer.len() implies #[trigger] fewer[j] == rows[if j < i {
        j
    } else {
        j + 1
    }] by {}
    assert forall|a: int, b: int|
        0 <= a < fewer.len() && 0 <= b < fewer.len() && a != b implies (#[trigger] fewer[a]).key()
        != (#[trigger] fewer[b]).key() by {
        let a2 = if a < i { a } else { a + 1 };
        let b2 = if b < i { b } else { b + 1 };
        assert(fewer[a] == rows[a2]);
        assert(fewer[b] == rows[b2]);
    }
    let before = by_key(rows).remove(rows[i].key());
    let after = by_key(fewer);
    assert forall|k: Seq<char>| before.dom().contains(k) <==> after.dom().contains(k) by {
        if before.dom().contains(k) {
            let j = lemma_by_key_row(rows, k);
            assert(j != i);
            let j2 = if j < i { j } else { j - 1 };
            assert(fewer[j2] == rows[j]);
            assert(at_key(fewer, k, j2));
        }
        if after.dom().contains(k) {
            let j = lemma_by_key_row(fewer, k);
            let j2 = if j < i { j } else { j + 1 };
            assert(fewer[j] == rows[j2]);
            assert(at_key(rows, k, j2));
            assert(rows[j2].key() != rows[i].key());
        }
    }
    assert forall|k: Seq<char>| before.dom().contains(k) implies before[k] == after[k] by {
        let j = lemma_by_key_row(fewer, k);
        lemma_by_key_at(fewer, j);
        let j2 = if j < i { j } else { j + 1 };
        assert(fewer[j] == rows[j2]);
        lemma_by_key_at(rows, j2);
    }
    assert(before =~= after);
}

/// The map of a list of rows has finitely many keys.
pub proof fn lemma_by_key_finite<R: Keyed>(rows: Seq<R>)
    ensures
        by_key(rows).dom().finite(),
    decreases rows.len(),
{
    if rows.len() == 0 {
        assert(rows =~= Seq::<R>::empty());
        lemma_by_key_empty::<R>();
    } else {
        let front = rows.drop_last();
        let last = rows.last();
        lemma_by_key_finite(front);
        let grown = by_key(front).dom().insert(last.key());
        assert forall|k: Seq<char>| grown.contains(k) <==> by_key(rows).dom().contains(k) by {
            if by_key(front).dom().contains(k) {
                let i = lemma_by_key_row(front, k);
                assert(front[i] == rows[i]);
                assert(at_key(rows, k, i));
            }
            if k == last.key() {
                assert(at_key(rows, k, rows.len() - 1));
            }
            if by_key(rows).dom().contains(k) {
                let i = lemma_by_key_row(rows, k);
                if i < rows.len() - 1 {
                    assert(front[i] == rows[i]);
                    assert(at_key(front, k, i));
                }
            }
        }
        assert(grown =~= by_key(rows).dom());
    }
}

} // verus!
