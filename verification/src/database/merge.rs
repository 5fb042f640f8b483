//! Rows that are written under a key: what a table holds once rows are
//! upserted into it, and the merging of rows that share a key, so that one
//! statement never writes one row twice.

use vstd::prelude::*;

verus! {

/// The table once the rows have been upserted, one after the other: each is
/// stored under its key, in place of the row that was stored under that key,
/// if there was one.
pub open spec fn laid_over<T, K>(table: Map<K, T>, rows: Seq<T>, key_of: spec_fn(T) -> K) -> Map<
    K,
    T,
>
    decreases rows.len(),
{
    if rows.len() == 0 {
        table
    } else {
        laid_over(table, rows.drop_last(), key_of).insert(key_of(rows.last()), rows.last())
    }
}

/// The table that holds the rows and nothing else.
pub open spec fn table_of<T, K>(rows: Seq<T>, key_of: spec_fn(T) -> K) -> Map<K, T> {
    laid_over(Map::empty(), rows, key_of)
}

/// One of the rows has the key.
pub open spec fn has_key<T, K>(rows: Seq<T>, key_of: spec_fn(T) -> K, key: K) -> bool {
    exists|i: int| 0 <= i < rows.len() && key_of(#[trigger] rows[i]) == key
}

/// No later row has the key of the row at `i`.
pub open spec fn is_last_of_its_key<T, K>(rows: Seq<T>, key_of: spec_fn(T) -> K, i: int) -> bool {
    forall|j: int| i < j < rows.len() ==> key_of(#[trigger] rows[j]) != key_of(rows[i])
}

/// No two of the rows have the same key.
pub open spec fn keys_differ<T, K>(rows: Seq<T>, key_of: spec_fn(T) -> K) -> bool {
    forall|i: int, j: int|
        0 <= i < j < rows.len() ==> key_of(#[trigger] rows[i]) != key_of(#[trigger] rows[j])
}

/// Where the first row with the key stands, if there is one.
pub open spec fn index_of_key<T, K>(rows: Seq<T>, key_of: spec_fn(T) -> K, key: K) -> Option<int>
    decreases rows.len(),
{
    if rows.len() == 0 {
        None
    } else {
        match index_of_key(rows.drop_last(), key_of, key) {
            Some(i) => Some(i),
            None => if key_of(rows.last()) == key {
                Some(rows.len() - 1)
            } else {
                None
            },
        }
    }
}

/// The rows with one more merged in: it takes the place of the row that has
/// its key, and comes last where none has.
pub open spec fn merged_with<T, K>(merged: Seq<T>, key_of: spec_fn(T) -> K, row: T) -> Seq<T> {
    match index_of_key(merged, key_of, key_of(row)) {
        Some(i) => merged.update(i, row),
        None => merged.push(row),
    }
}

/// The rows with several more merged in, one after the other.
pub open spec fn merged_into<T, K>(merged: Seq<T>, key_of: spec_fn(T) -> K, rows: Seq<T>) -> Seq<T>
    decreases rows.len(),
{
    if rows.len() == 0 {
        merged
    } else {
        merged_with(merged_into(merged, key_of, rows.drop_last()), key_of, rows.last())
    }
}

/// The rows with those of one key merged into one: each key stands where it
/// came first, and holds what the last row with that key holds.
pub open spec fn merged<T, K>(rows: Seq<T>, key_of: spec_fn(T) -> K) -> Seq<T> {
    merged_into(Seq::empty(), key_of, rows)
}

/// After an upsert of several rows the table holds a row for a key if it held
/// one before or the key is among the rows, and only then.
pub proof fn lemma_laid_over_holds<T, K>(
    table: Map<K, T>,
    rows: Seq<T>,
    key_of: spec_fn(T) -> K,
    key: K,
)
    ensures
        laid_over(table, rows, key_of).dom().contains(key) <==> (table.dom().contains(key)
            || has_key(rows, key_of, key)),
    decreases rows.len(),
{
    if rows.len() > 0 {
        let front = rows.drop_last();
        lemma_laid_over_holds(table, front, key_of, key);
        if has_key(front, key_of, key) {
            let i = choose|i: int| 0 <= i < front.len() && key_of(#[trigger] front[i]) == key;
            assert(rows[i] == front[i]);
        }
        if has_key(rows, key_of, key) {
            let i = choose|i: int| 0 <= i < rows.len() && key_of(#[trigger] rows[i]) == key;
            if i < front.len() {
                assert(front[i] == rows[i]);
            }
        }
        if key == key_of(rows.last()) {
            assert(rows[rows.len() - 1] == rows.last());
        }
    }
}

/// After an upsert of several rows the row of a key among them is the last
/// row with that key.
pub proof fn lemma_laid_over_last_wins<T, K>(
    table: Map<K, T>,
    rows: Seq<T>,
    key_of: spec_fn(T) -> K,
    i: int,
)
    requires
        0 <= i < rows.len(),
        is_last_of_its_key(rows, key_of, i),
    ensures
        laid_over(table, rows, key_of).dom().contains(key_of(rows[i])),
        laid_over(table, rows, key_of)[key_of(rows[i])] == rows[i],
    decreases rows.len(),
{
    let front = rows.drop_last();
    if i < front.len() {
        assert(front[i] == rows[i]);
        assert(key_of(rows[rows.len() - 1]) != key_of(rows[i]));
        assert forall|j: int| i < j < front.len() implies key_of(#[trigger] front[j]) != key_of(
            front[i],
        ) by {
            assert(front[j] == rows[j]);
        }
        lemma_laid_over_last_wins(table, front, key_of, i);
    }
}

/// After an upsert of several rows the row of a key that is not among them
/// is as it was.
pub proof fn lemma_laid_over_keeps<T, K>(
    table: Map<K, T>,
    rows: Seq<T>,
    key_of: spec_fn(T) -> K,
    key: K,
)
    requires
        table.dom().contains(key),
        !has_key(rows, key_of, key),
    ensures
        laid_over(table, rows, key_of).dom().contains(key),
        laid_over(table, rows, key_of)[key] == table[key],
    decreases rows.len(),
{
    if rows.len() > 0 {
        let front = rows.drop_last();
        assert(rows[rows.len() - 1] == rows.last());
        if has_key(front, key_of, key) {
            let i = choose|i: int| 0 <= i < front.len() && key_of(#[trigger] front[i]) == key;
            assert(rows[i] == front[i]);
        }
        lemma_laid_over_keeps(table, front, key_of, key);
    }
}

/// The table of rows whose keys differ has a row for each of them: it holds
/// as many rows as there are, each under its key.
pub proof fn lemma_table_of_distinct<T, K>(rows: Seq<T>, key_of: spec_fn(T) -> K)
    requires
        keys_differ(rows, key_of),
    ensures
        table_of(rows, key_of).dom().finite(),
        table_of(rows, key_of).dom().len() == rows.len(),
        forall|key: K| #[trigger]
            table_of(rows, key_of).dom().contains(key) <==> has_key(rows, key_of, key),
        forall|i: int|
            0 <= i < rows.len() ==> table_of(rows, key_of)[key_of(#[trigger] rows[i])] == rows[i],
    decreases rows.len(),
{
    assert forall|key: K| #[trigger]
        table_of(rows, key_of).dom().contains(key) <==> has_key(rows, key_of, key) by {
        lemma_laid_over_holds(Map::empty(), rows, key_of, key);
    }
    if rows.len() > 0 {
        let front = rows.drop_last();
        let last = rows.last();
        assert forall|i: int, j: int| 0 <= i < j < front.len() implies key_of(
            #[trigger] front[i],
        ) != key_of(#[trigger] front[j]) by {
            assert(front[i] == rows[i]);
            assert(front[j] == rows[j]);
        }
        lemma_table_of_distinct(front, key_of);
        lemma_laid_over_holds(Map::empty(), front, key_of, key_of(last));
        if has_key(front, key_of, key_of(last)) {
            let i = choose|i: int|
                0 <= i < front.len() && key_of(#[trigger] front[i]) == key_of(last);
            assert(front[i] == rows[i]);
            assert(rows[rows.len() - 1] == last);
        }
        assert(!table_of(front, key_of).dom().contains(key_of(last)));
        assert(table_of(rows, key_of).dom() =~= table_of(front, key_of).dom().insert(
            key_of(last),
        ));
    }
    assert forall|i: int| 0 <= i < rows.len() implies table_of(rows, key_of)[key_of(
        #[trigger] rows[i],
    )] == rows[i] by {
        assert(is_last_of_its_key(rows, key_of, i));
        lemma_laid_over_last_wins(Map::empty(), rows, key_of, i);
    }
}

/// Among rows whose keys differ, putting a row in the place of the one with
/// its key is an upsert of it.
pub proof fn lemma_table_of_update<T, K>(rows: Seq<T>, key_of: spec_fn(T) -> K, at: int, row: T)
    requires
        keys_differ(rows, key_of),
        0 <= at < rows.len(),
        key_of(rows[at]) == key_of(row),
    ensures
        keys_differ(rows.update(at, row), key_of),
        table_of(rows.update(at, row), key_of) == table_of(rows, key_of).insert(key_of(row), row),
{
    let updated = rows.update(at, row);
    lemma_table_of_distinct(rows, key_of);
    assert(keys_differ(updated, key_of));
    lemma_table_of_distinct(updated, key_of);
    let left = table_of(updated, key_of);
    let right = table_of(rows, key_of).insert(key_of(row), row);
    assert forall|key: K| left.dom().contains(key) <==> right.dom().contains(key) by {
        if has_key(updated, key_of, key) {
            let i = choose|i: int| 0 <= i < updated.len() && key_of(#[trigger] updated[i]) == key;
            assert(key_of(rows[i]) == key);
        }
        if has_key(rows, key_of, key) {
            let i = choose|i: int| 0 <= i < rows.len() && key_of(#[trigger] rows[i]) == key;
            assert(key_of(updated[i]) == key);
        }
        if key == key_of(row) {
            assert(key_of(updated[at]) == key);
        }
    }
    assert forall|key: K| left.dom().contains(key) implies left[key] == right[key] by {
        let i = choose|i: int| 0 <= i < updated.len() && key_of(#[trigger] updated[i]) == key;
        assert(left[key_of(updated[i])] == updated[i]);
        if i != at {
            assert(rows[i] == updated[i]);
            assert(table_of(rows, key_of)[key_of(rows[i])] == rows[i]);
        }
    }
    assert(left =~= right);
}

/// The index that is found is that of the first row with the key, and none is
/// found only where no row has the key.
pub proof fn lemma_index_of_key<T, K>(rows: Seq<T>, key_of: spec_fn(T) -> K, key: K)
    ensures
        match index_of_key(rows, key_of, key) {
            Some(i) => 0 <= i < rows.len() && key_of(rows[i]) == key && forall|j: int|
                0 <= j < i ==> key_of(#[trigger] rows[j]) != key,
            None => !has_key(rows, key_of, key),
        },
    decreases rows.len(),
{
    if rows.len() > 0 {
        let front = rows.drop_last();
        lemma_index_of_key(front, key_of, key);
        match index_of_key(front, key_of, key) {
            Some(i) => {
                assert(front[i] == rows[i]);
                assert forall|j: int| 0 <= j < i implies key_of(#[trigger] rows[j]) != key by {
                    assert(front[j] == rows[j]);
                }
            },
            None => {
                if key_of(rows.last()) == key {
                    assert forall|j: int| 0 <= j < rows.len() - 1 implies key_of(
                        #[trigger] rows[j],
                    ) != key by {
                        assert(front[j] == rows[j]);
                    }
                } else {
                    if has_key(rows, key_of, key) {
                        let k = choose|k: int|
                            0 <= k < rows.len() && key_of(#[trigger] rows[k]) == key;
                        assert(front[k] == rows[k]);
                    }
                }
            },
        }
    }
}

/// A row with the key before which no row has the key is the one that is
/// found.
pub proof fn lemma_index_of_key_is_first<T, K>(
    rows: Seq<T>,
    key_of: spec_fn(T) -> K,
    key: K,
    at: int,
)
    requires
        0 <= at < rows.len(),
        key_of(rows[at]) == key,
        forall|j: int| 0 <= j < at ==> key_of(#[trigger] rows[j]) != key,
    ensures
        index_of_key(rows, key_of, key) == Some(at),
{
    lemma_index_of_key(rows, key_of, key);
}

/// Merging one row in keeps the keys apart, and is an upsert of the row.
pub proof fn lemma_merged_with<T, K>(merged: Seq<T>, key_of: spec_fn(T) -> K, row: T)
    requires
        keys_differ(merged, key_of),
    ensures
        keys_differ(merged_with(merged, key_of, row), key_of),
        table_of(merged_with(merged, key_of, row), key_of) == table_of(merged, key_of).insert(
            key_of(row),
            row,
        ),
        merged.len() <= merged_with(merged, key_of, row).len() <= merged.len() + 1,
        merged_with(merged, key_of, row).len() > 0,
{
    lemma_index_of_key(merged, key_of, key_of(row));
    match index_of_key(merged, key_of, key_of(row)) {
        Some(i) => {
            lemma_table_of_update(merged, key_of, i, row);
        },
        None => {
            let after = merged.push(row);
            assert(after.drop_last() =~= merged);
            assert forall|i: int, j: int| 0 <= i < j < after.len() implies key_of(
                #[trigger] after[i],
            ) != key_of(#[trigger] after[j]) by {
                assert(after[i] == merged[i]);
                if j < merged.len() {
                    assert(after[j] == merged[j]);
                }
            }
        },
    }
}

/// Merging rows in keeps the keys apart, and is an upsert of the rows, one
/// after the other.
pub proof fn lemma_merged_into<T, K>(merged: Seq<T>, key_of: spec_fn(T) -> K, rows: Seq<T>)
    requires
        keys_differ(merged, key_of),
    ensures
        keys_differ(merged_into(merged, key_of, rows), key_of),
        table_of(merged_into(merged, key_of, rows), key_of) == laid_over(
            table_of(merged, key_of),
            rows,
            key_of,
        ),
        merged.len() <= merged_into(merged, key_of, rows).len() <= merged.len() + rows.len(),
        rows.len() > 0 ==> merged_into(merged, key_of, rows).len() > 0,
    decreases rows.len(),
{
    if rows.len() > 0 {
        lemma_merged_into(merged, key_of, rows.drop_last());
        lemma_merged_with(merged_into(merged, key_of, rows.drop_last()), key_of, rows.last());
    }
}

/// Upserting rows into a table gives the table with the table of the rows
/// laid over it.
pub proof fn lemma_laid_over_is_union<T, K>(table: Map<K, T>, rows: Seq<T>, key_of: spec_fn(T) -> K)
    ensures
        laid_over(table, rows, key_of) == table.union_prefer_right(table_of(rows, key_of)),
    decreases rows.len(),
{
    if rows.len() == 0 {
        assert(table =~= table.union_prefer_right(table_of(rows, key_of)));
    } else {
        lemma_laid_over_is_union(table, rows.drop_last(), key_of);
        assert(laid_over(table, rows, key_of) =~= table.union_prefer_right(
            table_of(rows, key_of),
        ));
    }
}

/// Merging makes no row up: each of the merged rows is one of the rows that
/// were there or of the rows that were merged in.
pub proof fn lemma_merged_into_is_of_the_rows<T, K>(
    start: Seq<T>,
    key_of: spec_fn(T) -> K,
    rows: Seq<T>,
    k: int,
)
    requires
        0 <= k < merged_into(start, key_of, rows).len(),
    ensures
        start.contains(merged_into(start, key_of, rows)[k]) || rows.contains(
            merged_into(start, key_of, rows)[k],
        ),
    decreases rows.len(),
{
    let all = merged_into(start, key_of, rows);
    if rows.len() == 0 {
        assert(start[k] == all[k]);
    } else {
        let front = rows.drop_last();
        let last = rows.last();
        let before = merged_into(start, key_of, front);
        lemma_index_of_key(before, key_of, key_of(last));
        assert(rows[rows.len() - 1] == last);
        if all[k] != last {
            assert(0 <= k < before.len() && before[k] == all[k]);
            lemma_merged_into_is_of_the_rows(start, key_of, front, k);
            if front.contains(before[k]) {
                let j = choose|j: int| 0 <= j < front.len() && front[j] == before[k];
                assert(rows[j] == front[j]);
            }
        }
    }
}

/// Merging loses nothing that an upsert would keep.
///
/// In the merged rows no key comes twice, so one statement can write them
/// all. They are no more than the rows, and some where there are rows.
/// Upserted into any table, one after the other, they leave what the rows
/// themselves would leave: a row for each key, which is the last row with
/// that key.
pub proof fn lemma_merged<T, K>(table: Map<K, T>, rows: Seq<T>, key_of: spec_fn(T) -> K)
    ensures
        keys_differ(merged(rows, key_of), key_of),
        merged(rows, key_of).len() <= rows.len(),
        rows.len() > 0 ==> merged(rows, key_of).len() > 0,
        table_of(merged(rows, key_of), key_of) == table_of(rows, key_of),
        laid_over(table, merged(rows, key_of), key_of) == laid_over(table, rows, key_of),
{
    lemma_merged_into(Seq::<T>::empty(), key_of, rows);
    lemma_laid_over_is_union(table, merged(rows, key_of), key_of);
    lemma_laid_over_is_union(table, rows, key_of);
}

} // verus!
