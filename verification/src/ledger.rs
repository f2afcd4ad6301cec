//! The table of account records, kept in the order of its keys.

use crate::keys::bytes_precede;
use crate::keys::lemma_growing_order_is_unique;
use crate::keys::lemma_precede_irreflexive;
use crate::keys::lemma_precede_transitive;
use crate::keys::strictly_growing;
use crate::keys::AccountId;
use crate::keys::Rank;
use vstd::prelude::*;

verus! {

/// One row of the table.
#[derive(Debug)]
pub struct Entry<V> {
    /// Whose record this is.
    pub key: AccountId,
    /// The record.
    pub value: V,
}

/// Whether the keys of `rows` grow strictly from each row to the next.
pub open spec fn rows_sorted<V>(rows: Seq<Entry<V>>) -> bool {
    forall|i: int, j: int|
        0 <= i < j < rows.len() ==> bytes_precede(#[trigger] rows[i].key@, #[trigger] rows[j].key@)
}

/// Whether some row of `rows` holds `key`.
pub open spec fn rows_hold<V>(rows: Seq<Entry<V>>, key: Seq<u8>) -> bool {
    exists|i: int| 0 <= i < rows.len() && #[trigger] rows[i].key@ == key
}

/// The index of a row of `rows` that holds `key`.
pub open spec fn row_of<V>(rows: Seq<Entry<V>>, key: Seq<u8>) -> int {
    choose|i: int| 0 <= i < rows.len() && #[trigger] rows[i].key@ == key
}

/// The mapping that `rows` stand for.
pub open spec fn rows_map<V>(rows: Seq<Entry<V>>) -> Map<Seq<u8>, V> {
    Map::new(|key: Seq<u8>| rows_hold(rows, key), |key: Seq<u8>| rows[row_of(rows, key)].value)
}

/// In sorted rows a key stands in one row only.
pub proof fn lemma_sorted_rows_distinct<V>(rows: Seq<Entry<V>>, i: int, j: int)
    requires
        rows_sorted(rows),
        0 <= i < rows.len(),
        0 <= j < rows.len(),
        rows[i].key@ == rows[j].key@,
    ensures
        i == j,
{
    lemma_precede_irreflexive(rows[i].key@);
    if i < j {
        assert(bytes_precede(rows[i].key@, rows[j].key@));
    } else if j < i {
        assert(bytes_precede(rows[j].key@, rows[i].key@));
    }
}

/// What the mapping of sorted rows holds under the key of row `i`.
pub proof fn lemma_rows_map_at<V>(rows: Seq<Entry<V>>, i: int)
    requires
        rows_sorted(rows),
        0 <= i < rows.len(),
    ensures
        rows_map(rows).contains_key(rows[i].key@),
        rows_map(rows)[rows[i].key@] == rows[i].value,
{
    let key = rows[i].key@;
    assert(rows_hold(rows, key));
    lemma_sorted_rows_distinct(rows, i, row_of(rows, key));
}

/// An authenticated table of a service as this library sees it: a finite
/// mapping from account identifier to record.
///
/// Shared access reads it; exclusive access also writes it.
#[derive(Debug)]
pub struct Ledger<V> {
    rows: Vec<Entry<V>>,
}

impl<V> View for Ledger<V> {
    type V = Map<Seq<u8>, V>;

    closed spec fn view(&self) -> Map<Seq<u8>, V> {
        rows_map(self.rows@)
    }
}

impl<V> Ledger<V> {
    /// The keys of the table in the order in which it is walked.
    pub closed spec fn keys(&self) -> Seq<Seq<u8>> {
        self.rows@.map_values(|row: Entry<V>| row.key@)
    }

    /// The invariant of the table: its rows are sorted by key.
    pub closed spec fn wf(&self) -> bool {
        rows_sorted(self.rows@)
    }

    /// `keys` lists the domain of the table once each, in strictly growing
    /// order.
    pub proof fn lemma_keys(&self)
        requires
            self.wf(),
        ensures
            self@.dom().finite(),
            self.keys().len() == self@.dom().len(),
            forall|key: Seq<u8>| self.keys().contains(key) <==> self@.contains_key(key),
            strictly_growing(self.keys()),
            forall|key: Seq<u8>| self@.contains_key(key) ==> key.len() == 32,
    {
        let keys = self.keys();
        let rows = self.rows@;
        assert forall|key: Seq<u8>| keys.contains(key) <==> self@.contains_key(key) by {
            if keys.contains(key) {
                let i = choose|i: int| 0 <= i < keys.len() && keys[i] == key;
                assert(rows[i].key@ == key);
            }
            if self@.contains_key(key) {
                let i = row_of(rows, key);
                assert(keys[i] == key);
            }
        }
        assert forall|i: int, j: int| 0 <= i < j < keys.len() implies bytes_precede(
            #[trigger] keys[i],
            #[trigger] keys[j],
        ) by {
            assert(bytes_precede(rows[i].key@, rows[j].key@));
        }
        assert forall|i: int, j: int| 0 <= i < keys.len() && 0 <= j < keys.len() && i != j implies keys[i]
            != keys[j] by {
            if keys[i] == keys[j] {
                lemma_sorted_rows_distinct(rows, i, j);
            }
        }
        assert(keys.no_duplicates());
        keys.unique_seq_to_set();
        assert(keys.to_set() =~= self@.dom());
        assert forall|key: Seq<u8>| self@.contains_key(key) implies key.len() == 32 by {
            let i = row_of(rows, key);
            assert(rows[i].key@ == key);
        }
    }

    /// Two tables that hold the same records are walked alike: the order of
    /// a walk depends on what the table holds, not on how it came to hold it.
    pub proof fn lemma_walk_is_determined(&self, other: &Ledger<V>)
        requires
            self.wf(),
            other.wf(),
            self@ == other@,
        ensures
            self.keys() == other.keys(),
    {
        self.lemma_keys();
        other.lemma_keys();
        lemma_growing_order_is_unique(self.keys(), other.keys());
    }

    /// A table without rows.
    pub fn new() -> (ledger: Ledger<V>)
        ensures
            ledger.wf(),
            ledger@ == Map::<Seq<u8>, V>::empty(),
    {
        let ledger = Ledger { rows: Vec::new() };
        assert(ledger@ =~= Map::<Seq<u8>, V>::empty());
        ledger
    }

    /// Whether the table holds no account.
    pub fn is_empty(&self) -> (empty: bool)
        requires
            self.wf(),
        ensures
            empty == (self@.dom().len() == 0),
    {
        proof {
            self.lemma_keys();
        }
        self.rows.len() == 0
    }

    /// Number of accounts in the table.
    pub fn len(&self) -> (n: usize)
        requires
            self.wf(),
        ensures
            n == self@.dom().len(),
    {
        proof {
            self.lemma_keys();
        }
        self.rows.len()
    }

    /// Index of the first row whose key does not come before `key`, and
    /// whether that row holds `key`.
    fn locate(&self, key: &AccountId) -> (at: (usize, bool))
        requires
            self.wf(),
        ensures
            at.0 <= self.rows@.len(),
            forall|i: int| 0 <= i < at.0 ==> bytes_precede(#[trigger] self.rows@[i].key@, key@),
            at.1 ==> at.0 < self.rows@.len() && self.rows@[at.0 as int].key@ == key@,
            !at.1 ==> forall|i: int|
                at.0 <= i < self.rows@.len() ==> bytes_precede(key@, #[trigger] self.rows@[i].key@),
            at.1 == self@.contains_key(key@),
    {
        let mut i: usize = 0;
        while i < self.rows.len()
            invariant
                self.wf(),
                i <= self.rows@.len(),
                forall|j: int| 0 <= j < i ==> bytes_precede(#[trigger] self.rows@[j].key@, key@),
            decreases self.rows@.len() - i,
        {
            match self.rows[i].key.rank(key) {
                Rank::Before => {
                    i += 1;
                },
                Rank::Same => {
                    assert(rows_hold(self.rows@, key@));
                    return (i, true);
                },
                Rank::After => {
                    proof {
                        let rows = self.rows@;
                        assert forall|j: int| i <= j < rows.len() implies bytes_precede(
                            key@,
                            #[trigger] rows[j].key@,
                        ) by {
                            if j > i {
                                assert(bytes_precede(rows[i as int].key@, rows[j].key@));
                                lemma_precede_transitive(key@, rows[i as int].key@, rows[j].key@);
                            }
                        }
                        self.lemma_absent(key@, i as int);
                    }
                    return (i, false);
                },
            }
        }
        proof {
            self.lemma_absent(key@, i as int);
        }
        (i, false)
    }

    /// A key that stands between the rows before `at` and those from `at` on
    /// is in no row.
    proof fn lemma_absent(&self, key: Seq<u8>, at: int)
        requires
            0 <= at <= self.rows@.len(),
            forall|i: int| 0 <= i < at ==> bytes_precede(#[trigger] self.rows@[i].key@, key),
            forall|i: int|
                at <= i < self.rows@.len() ==> bytes_precede(key, #[trigger] self.rows@[i].key@),
        ensures
            !self@.contains_key(key),
    {
        lemma_precede_irreflexive(key);
        if rows_hold(self.rows@, key) {
            let i = row_of(self.rows@, key);
            if i < at {
                assert(bytes_precede(self.rows@[i].key@, key));
            } else {
                assert(bytes_precede(key, self.rows@[i].key@));
            }
        }
    }

    /// The record stored under `key`, if there is one.
    pub fn get(&self, key: &AccountId) -> (found: Option<&V>)
        requires
            self.wf(),
        ensures
            found == if self@.contains_key(key@) {
                Some(&self@[key@])
            } else {
                None::<&V>
            },
    {
        let (at, held) = self.locate(key);
        if held {
            proof {
                lemma_rows_map_at(self.rows@, at as int);
            }
            Some(&self.rows[at].value)
        } else {
            None
        }
    }

    /// Whether a record is stored under `key`.
    pub fn contains(&self, key: &AccountId) -> (held: bool)
        requires
            self.wf(),
        ensures
            held == self@.contains_key(key@),
    {
        let (_, held) = self.locate(key);
        held
    }

    /// Stores `value` under `key`, in place of what was stored there.
    pub fn put(&mut self, key: &AccountId, value: V)
        requires
            old(self).wf(),
        ensures
            final(self).wf(),
            final(self)@ == old(self)@.insert(key@, value),
    {
        let (at, held) = self.locate(key);
        let ghost before = self.rows@;
        let row = Entry { key: *key, value };
        if held {
            self.rows[at] = row;
            proof {
                let after = self.rows@;
                assert(after == before.update(at as int, row));
                assert forall|i: int| 0 <= i < after.len() implies #[trigger] after[i].key@
                    == before[i].key@ by {}
                assert(rows_sorted(after)) by {
                    assert forall|i: int, j: int| 0 <= i < j < after.len() implies bytes_precede(
                        #[trigger] after[i].key@,
                        #[trigger] after[j].key@,
                    ) by {
                        assert(bytes_precede(before[i].key@, before[j].key@));
                    }
                }
                lemma_rows_replace(before, after, at as int, row);
            }
        } else {
            self.rows.insert(at, row);
            proof {
                let after = self.rows@;
                assert(after == before.insert(at as int, row));
                lemma_rows_insert(before, after, at as int, row);
            }
        }
    }

    /// Every record of the table, in the order of the keys.
    pub fn values(&self) -> (records: Vec<&V>)
        requires
            self.wf(),
        ensures
            records@.len() == self.keys().len(),
            forall|i: int|
                0 <= i < records@.len() ==> #[trigger] records@[i] == self@[self.keys()[i]],
    {
        let mut records: Vec<&V> = Vec::new();
        let mut i: usize = 0;
        while i < self.rows.len()
            invariant
                self.wf(),
                i <= self.rows@.len(),
                records@.len() == i,
                forall|j: int| 0 <= j < i ==> #[trigger] records@[j] == self.rows@[j].value,
            decreases self.rows@.len() - i,
        {
            records.push(&self.rows[i].value);
            i += 1;
        }
        proof {
            assert forall|j: int| 0 <= j < records@.len() implies #[trigger] records@[j]
                == self@[self.keys()[j]] by {
                lemma_rows_map_at(self.rows@, j);
            }
        }
        records
    }

    /// Every identifier of the table, in growing order.
    pub fn accounts(&self) -> (ids: Vec<AccountId>)
        requires
            self.wf(),
        ensures
            ids@.len() == self.keys().len(),
            forall|i: int| 0 <= i < ids@.len() ==> (#[trigger] ids@[i])@ == self.keys()[i],
    {
        let mut ids: Vec<AccountId> = Vec::new();
        let mut i: usize = 0;
        while i < self.rows.len()
            invariant
                i <= self.rows@.len(),
                ids@.len() == i,
                forall|j: int| 0 <= j < i ==> (#[trigger] ids@[j])@ == self.rows@[j].key@,
            decreases self.rows@.len() - i,
        {
            ids.push(self.rows[i].key);
            i += 1;
        }
        ids
    }
}

/// Replacing the record of row `at` stores it under that row's key.
proof fn lemma_rows_replace<V>(before: Seq<Entry<V>>, after: Seq<Entry<V>>, at: int, row: Entry<V>)
    requires
        rows_sorted(before),
        rows_sorted(after),
        0 <= at < before.len(),
        before[at].key@ == row.key@,
        after == before.update(at, row),
    ensures
        rows_map(after) == rows_map(before).insert(row.key@, row.value),
{
    let target = rows_map(before).insert(row.key@, row.value);
    assert forall|key: Seq<u8>| rows_map(after).contains_key(key) <==> target.contains_key(
        key,
    ) by {
        if rows_hold(after, key) {
            let i = row_of(after, key);
            if i != at {
                assert(before[i].key@ == key);
            }
        }
        if rows_hold(before, key) {
            let i = row_of(before, key);
            assert(after[i].key@ == key);
        }
        if key == row.key@ {
            assert(after[at].key@ == key);
        }
    }
    assert forall|key: Seq<u8>| rows_map(after).contains_key(key) implies rows_map(after)[key]
        == target[key] by {
        let i = row_of(after, key);
        lemma_rows_map_at(after, i);
        if i != at {
            assert(before[i].key@ == key);
            lemma_rows_map_at(before, i);
            if key == row.key@ {
                lemma_sorted_rows_distinct(before, i, at);
            }
        }
    }
    assert(rows_map(after) =~= target);
}

/// Inserting a row at its place among sorted rows keeps them sorted and
/// stores its record under its key.
proof fn lemma_rows_insert<V>(before: Seq<Entry<V>>, after: Seq<Entry<V>>, at: int, row: Entry<V>)
    requires
        rows_sorted(before),
        0 <= at <= before.len(),
        forall|i: int| 0 <= i < at ==> bytes_precede(#[trigger] before[i].key@, row.key@),
        forall|i: int| at <= i < before.len() ==> bytes_precede(row.key@, #[trigger] before[i].key@),
        after == before.insert(at, row),
    ensures
        rows_sorted(after),
        rows_map(after) == rows_map(before).insert(row.key@, row.value),
{
    assert forall|i: int, j: int| 0 <= i < j < after.len() implies bytes_precede(
        #[trigger] after[i].key@,
        #[trigger] after[j].key@,
    ) by {
        if j < at {
            assert(bytes_precede(before[i].key@, before[j].key@));
        } else if j == at {
            assert(bytes_precede(before[i].key@, row.key@));
        } else if i < at {
            assert(after[j] == before[j - 1]);
            assert(bytes_precede(before[i].key@, before[j - 1].key@));
        } else if i == at {
            assert(after[j] == before[j - 1]);
            assert(bytes_precede(row.key@, before[j - 1].key@));
        } else {
            assert(after[i] == before[i - 1]);
            assert(after[j] == before[j - 1]);
            assert(bytes_precede(before[i - 1].key@, before[j - 1].key@));
        }
    }
    let target = rows_map(before).insert(row.key@, row.value);
    assert forall|key: Seq<u8>| rows_map(after).contains_key(key) <==> target.contains_key(
        key,
    ) by {
        if rows_hold(after, key) {
            let i = row_of(after, key);
            if i < at {
                assert(before[i].key@ == key);
            } else if i > at {
                assert(before[i - 1].key@ == key);
            }
        }
        if rows_hold(before, key) {
            let i = row_of(before, key);
            if i < at {
                assert(after[i].key@ == key);
            } else {
                assert(after[i + 1].key@ == key);
            }
        }
        if key == row.key@ {
            assert(after[at].key@ == key);
        }
    }
    assert forall|key: Seq<u8>| rows_map(after).contains_key(key) implies rows_map(after)[key]
        == target[key] by {
        let i = row_of(after, key);
        lemma_rows_map_at(after, i);
        if i < at {
            assert(before[i].key@ == key);
            lemma_rows_map_at(before, i);
            lemma_precede_irreflexive(key);
        } else if i > at {
            assert(before[i - 1].key@ == key);
            lemma_rows_map_at(before, i - 1);
            lemma_precede_irreflexive(key);
        }
    }
    assert(rows_map(after) =~= target);
}

} // verus!
