//! What the table of repositories holds after an upsert: a model of the
//! table, the merging of records that share an id, and a table in memory that
//! does both.

use vstd::prelude::*;
use vstd::string::*;
use vstd::pervasive::VecAdditionalExecFns;
use crate::database::merge::{
    has_key, index_of_key, is_last_of_its_key, keys_differ, laid_over, lemma_index_of_key,
    lemma_index_of_key_is_first, lemma_laid_over_holds, lemma_laid_over_keeps,
    lemma_laid_over_last_wins, lemma_merged, lemma_table_of_distinct, lemma_table_of_update,
    merged, merged_into, merged_with,
};
use crate::database::store::records_of;
use crate::github::graphql::RepositoryRecord;
use crate::github::Repository;

verus! {

/// The key under which a repository is stored: its id.
pub open spec fn id_of() -> spec_fn(RepositoryRecord) -> Seq<char> {
    |record: RepositoryRecord| record.id
}

/// The table after one row has been upserted: the row is stored under its id,
/// in place of the row that was stored under that id, if there was one.
pub open spec fn upsert(
    table: Map<Seq<char>, RepositoryRecord>,
    record: RepositoryRecord,
) -> Map<Seq<char>, RepositoryRecord> {
    table.insert(record.id, record)
}

/// The table after the rows have been upserted, one after the other.
pub open spec fn upsert_all(
    table: Map<Seq<char>, RepositoryRecord>,
    records: Seq<RepositoryRecord>,
) -> Map<Seq<char>, RepositoryRecord> {
    laid_over(table, records, id_of())
}

/// The table that holds the records and nothing else.
pub open spec fn table_of(records: Seq<RepositoryRecord>) -> Map<Seq<char>, RepositoryRecord> {
    upsert_all(Map::empty(), records)
}

/// No later record has the id of the record at `i`.
pub open spec fn is_last_of_its_id(records: Seq<RepositoryRecord>, i: int) -> bool {
    is_last_of_its_key(records, id_of(), i)
}

/// One of the records has the id.
pub open spec fn has_id(records: Seq<RepositoryRecord>, id: Seq<char>) -> bool {
    has_key(records, id_of(), id)
}

/// No two of the records have the same id.
pub open spec fn ids_differ(records: Seq<RepositoryRecord>) -> bool {
    keys_differ(records, id_of())
}

/// The records with those of one id merged into one: each id stands where it
/// came first, and says what the last record with that id says.
pub open spec fn merged_by_id(records: Seq<RepositoryRecord>) -> Seq<RepositoryRecord> {
    merged(records, id_of())
}

/// Upserting the same id twice leaves one row for it, and that row says what
/// was submitted last: the second upsert adds no row, and every column,
/// `pushed_at` among them, is that of the second record.
pub proof fn lemma_upsert_twice_keeps_latest(
    table: Map<Seq<char>, RepositoryRecord>,
    first: RepositoryRecord,
    second: RepositoryRecord,
)
    requires
        first.id == second.id,
    ensures
        ({
            let once = upsert_all(table, seq![first]);
            let twice = upsert_all(once, seq![second]);
            &&& twice.dom() == once.dom()
            &&& twice.dom() == table.dom().insert(first.id)
            &&& twice[first.id] == second
            &&& twice[first.id].pushed_at == second.pushed_at
            &&& forall|id: Seq<char>| id != first.id && table.dom().contains(id) ==> twice[id]
                == table[id]
        }),
{
    let once = upsert_all(table, seq![first]);
    let twice = upsert_all(once, seq![second]);
    reveal_with_fuel(laid_over, 2);
    assert(seq![first].drop_last() =~= Seq::<RepositoryRecord>::empty());
    assert(seq![second].drop_last() =~= Seq::<RepositoryRecord>::empty());
    assert(once == upsert(table, first));
    assert(twice == upsert(once, second));
    assert(twice.dom() =~= once.dom());
    assert(twice.dom() =~= table.dom().insert(first.id));
}

/// After an upsert of several records the table holds a row for every id that
/// it held before and for every id among the records, and no other. The row
/// of an id among the records says what the last record with that id says;
/// the other rows are as they were.
pub proof fn lemma_upsert_all_last_wins(
    table: Map<Seq<char>, RepositoryRecord>,
    records: Seq<RepositoryRecord>,
)
    ensures
        forall|id: Seq<char>|
            #[trigger] upsert_all(table, records).dom().contains(id) <==> (table.dom().contains(
                id,
            ) || has_id(records, id)),
        forall|i: int|
            0 <= i < records.len() && is_last_of_its_id(records, i) ==> upsert_all(
                table,
                records,
            )[(#[trigger] records[i]).id] == records[i],
        forall|id: Seq<char>|
            table.dom().contains(id) && !has_id(records, id) ==> #[trigger] upsert_all(
                table,
                records,
            )[id] == table[id],
{
    assert forall|id: Seq<char>| #[trigger]
        upsert_all(table, records).dom().contains(id) <==> (table.dom().contains(id) || has_id(
            records,
            id,
        )) by {
        lemma_laid_over_holds(table, records, id_of(), id);
    }
    assert forall|i: int|
        0 <= i < records.len() && is_last_of_its_id(records, i) implies upsert_all(
        table,
        records,
    )[(#[trigger] records[i]).id] == records[i] by {
        lemma_laid_over_last_wins(table, records, id_of(), i);
    }
    assert forall|id: Seq<char>|
        table.dom().contains(id) && !has_id(records, id) implies #[trigger] upsert_all(
        table,
        records,
    )[id] == table[id] by {
        lemma_laid_over_keeps(table, records, id_of(), id);
    }
}

/// Merging loses nothing that an upsert would keep.
///
/// In the merged records no id comes twice, so one statement can write them
/// all. They are no more than the records, and some where there are records.
/// Upserted into any table, one after the other, they leave what the records
/// themselves would leave: a row for each id, which says what the last record
/// with that id says.
pub proof fn lemma_merged_by_id(
    table: Map<Seq<char>, RepositoryRecord>,
    records: Seq<RepositoryRecord>,
)
    ensures
        ids_differ(merged_by_id(records)),
        merged_by_id(records).len() <= records.len(),
        records.len() > 0 ==> merged_by_id(records).len() > 0,
        table_of(merged_by_id(records)) == upsert_all(Map::empty(), records),
        upsert_all(table, merged_by_id(records)) == upsert_all(table, records),
{
    lemma_merged(table, records, id_of());
}

/// A table of repositories in memory: the model of the stored table, made
/// to run. It holds one row for each id, in the order in which the ids came,
/// and an upsert merges a record into it.
#[derive(Debug)]
pub struct RepositoryTable {
    rows: Vec<Repository>,
}

impl View for RepositoryTable {
    type V = Map<Seq<char>, RepositoryRecord>;

    closed spec fn view(&self) -> Map<Seq<char>, RepositoryRecord> {
        table_of(records_of(self.rows@))
    }
}

impl RepositoryTable {
    #[verifier::type_invariant]
    spec fn one_row_for_each_id(&self) -> bool {
        ids_differ(records_of(self.rows@))
    }

    /// The rows, in the order in which their ids came.
    pub closed spec fn records(&self) -> Seq<RepositoryRecord> {
        records_of(self.rows@)
    }

    /// A table without rows.
    pub fn new() -> (table: RepositoryTable)
        ensures
            table@ == Map::<Seq<char>, RepositoryRecord>::empty(),
            table.records() == Seq::<RepositoryRecord>::empty(),
    {
        let rows: Vec<Repository> = Vec::new();
        assert(records_of(rows@) =~= Seq::empty());
        RepositoryTable { rows }
    }

    /// Takes the rows out, in the order in which their ids came. No two of
    /// them have the same id.
    pub fn into_rows(self) -> (rows: Vec<Repository>)
        ensures
            records_of(rows@) == self.records(),
            table_of(records_of(rows@)) == self@,
            ids_differ(records_of(rows@)),
    {
        proof {
            use_type_invariant(&self);
        }
        self.rows
    }

    /// The number of rows.
    pub fn len(&self) -> (count: usize)
        ensures
            self@.dom().finite(),
            count == self@.dom().len(),
    {
        proof {
            use_type_invariant(self);
            lemma_table_of_distinct(records_of(self.rows@), id_of());
        }
        self.rows.len()
    }

    fn position(&self, id: &str) -> (at: Option<usize>)
        ensures
            match at {
                Some(i) => i < self.rows@.len() && self.rows@[i as int]@.id == id@
                    && index_of_key(self.records(), id_of(), id@) == Some(i as int),
                None => !has_id(records_of(self.rows@), id@) && index_of_key(
                    self.records(),
                    id_of(),
                    id@,
                ).is_none(),
            },
    {
        let mut i: usize = 0;
        while i < self.rows.len()
            invariant
                i <= self.rows.len(),
                forall|j: int| 0 <= j < i ==> (#[trigger] records_of(self.rows@)[j]).id != id@,
            decreases self.rows.len() - i,
        {
            if crate::text::same_text(self.rows[i].id(), id) {
                proof {
                    assert(records_of(self.rows@)[i as int] == self.rows@[i as int]@);
                    lemma_index_of_key_is_first(records_of(self.rows@), id_of(), id@, i as int);
                }
                return Some(i);
            }
            i = i + 1;
        }
        proof {
            lemma_index_of_key(records_of(self.rows@), id_of(), id@);
        }
        None
    }

    /// The row that is stored under `id`, if there is one.
    pub fn get(&self, id: &str) -> (row: Option<&Repository>)
        ensures
            match row {
                Some(repository) => self@.dom().contains(id@) && self@[id@] == repository@,
                None => !self@.dom().contains(id@),
            },
    {
        proof {
            use_type_invariant(self);
            lemma_table_of_distinct(records_of(self.rows@), id_of());
        }
        match self.position(id) {
            Some(i) => {
                assert(records_of(self.rows@)[i as int] == self.rows@[i as int]@);
                Some(&self.rows[i])
            },
            None => None,
        }
    }

    /// Upserts one row: it takes the place of the row with its id, and comes
    /// last where there is none.
    pub fn upsert(&mut self, repository: Repository)
        ensures
            final(self)@ == upsert(old(self)@, repository@),
            final(self).records() == merged_with(old(self).records(), id_of(), repository@),
    {
        proof {
            use_type_invariant(&*self);
        }
        let at = self.position(repository.id());
        let mut rows: Vec<Repository> = Vec::new();
        assert(records_of(rows@) =~= Seq::empty());
        core::mem::swap(&mut self.rows, &mut rows);
        let ghost before = records_of(rows@);
        match at {
            Some(i) => {
                proof {
                    assert(before[i as int] == rows@[i as int]@);
                    lemma_table_of_update(before, id_of(), i as int, repository@);
                }
                rows.set(i, repository);
                assert(records_of(rows@) =~= before.update(i as int, repository@));
            },
            None => {
                rows.push(repository);
                proof {
                    let after = records_of(rows@);
                    assert(after =~= before.push(repository@));
                    assert(after.drop_last() =~= before);
                    assert forall|i: int, j: int| 0 <= i < j < after.len() implies (
                    #[trigger] after[i]).id != (#[trigger] after[j]).id by {
                        assert(after[i] == before[i]);
                        if j < before.len() {
                            assert(after[j] == before[j]);
                        }
                    }
                }
            },
        }
        self.rows = rows;
    }

    /// Upserts the rows, one after the other.
    pub fn upsert_all(&mut self, repositories: &Vec<Repository>)
        ensures
            final(self)@ == upsert_all(old(self)@, records_of(repositories@)),
            final(self).records() == merged_into(
                old(self).records(),
                id_of(),
                records_of(repositories@),
            ),
    {
        let ghost all = records_of(repositories@);
        let mut i: usize = 0;
        while i < repositories.len()
            invariant
                i <= repositories.len(),
                all == records_of(repositories@),
                self@ == upsert_all(old(self)@, all.take(i as int)),
                self.records() == merged_into(old(self).records(), id_of(), all.take(i as int)),
            decreases repositories.len() - i,
        {
            proof {
                assert(all.take(i + 1).drop_last() =~= all.take(i as int));
                assert(all.take(i + 1).last() == repositories@[i as int]@);
            }
            self.upsert(repositories[i].clone());
            i = i + 1;
        }
        proof {
            assert(all.take(i as int) =~= all);
        }
    }
}

/// Merges the repositories that share an id into one, last wins, so that no
/// id comes twice: each id stands where it came first, with what the last
/// repository of that id says.
pub fn merge_by_id(repositories: &Vec<Repository>) -> (merged: Vec<Repository>)
    ensures
        records_of(merged@) == merged_by_id(records_of(repositories@)),
        ids_differ(records_of(merged@)),
        table_of(records_of(merged@)) == upsert_all(Map::empty(), records_of(repositories@)),
        (merged@.len() == 0) == (repositories@.len() == 0),
{
    proof {
        lemma_merged_by_id(Map::empty(), records_of(repositories@));
    }
    let mut table = RepositoryTable::new();
    table.upsert_all(repositories);
    table.into_rows()
}

} // verus!
