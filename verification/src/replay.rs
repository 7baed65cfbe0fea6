//! The key-value state that replaying a retained transaction stream yields:
//! each `Set` writes the key at the record's commit version, each `Clear`
//! removes the key, and each `ClearRange` removes every key in its half-open
//! interval.

use crate::codec::{bytes_le, lex_le, lex_lt};
use crate::transaction::{Mutation, RetainedTransactionRecord};
use vstd::prelude::*;

verus! {

/// A committed value and the version that wrote it.
#[derive(Debug, PartialEq, Eq)]
pub struct VersionedValue {
    pub version: u64,
    pub value: Vec<u8>,
}

/// The replayed state: each key to its version and value.
pub type ReplayState = Map<Seq<u8>, (u64, Seq<u8>)>;

/// `key` lies in the half-open interval `[start, end)`.
pub open spec fn in_range(key: Seq<u8>, start: Seq<u8>, end: Seq<u8>) -> bool {
    lex_le(start, key) && lex_lt(key, end)
}

/// The state with every key of `[start, end)` removed.
pub open spec fn clear_range(state: ReplayState, start: Seq<u8>, end: Seq<u8>) -> ReplayState {
    Map::new(|k: Seq<u8>| state.dom().contains(k) && !in_range(k, start, end), |k: Seq<u8>| state[k])
}

/// The state after one mutation committed at `version`.
pub open spec fn apply_mutation(state: ReplayState, version: u64, mutation: Mutation) -> ReplayState {
    match mutation {
        Mutation::SetValue { key, value } => state.insert(key@, (version, value@)),
        Mutation::Clear { key } => state.remove(key@),
        Mutation::ClearRange { range } => clear_range(state, range.start@, range.end@),
    }
}

/// The state after a command's mutations, in order.
pub open spec fn apply_mutations(state: ReplayState, version: u64, mutations: Seq<Mutation>) -> ReplayState
    decreases mutations.len(),
{
    if mutations.len() == 0 {
        state
    } else {
        apply_mutation(apply_mutations(state, version, mutations.drop_last()), version, mutations.last())
    }
}

/// The state after replaying the records, in order, from the empty state.
pub open spec fn replay_spec(records: Seq<RetainedTransactionRecord>) -> ReplayState
    decreases records.len(),
{
    if records.len() == 0 {
        Map::empty()
    } else {
        apply_mutations(
            replay_spec(records.drop_last()),
            records.last().commit_version,
            records.last().command.mutations@,
        )
    }
}

/// Every range that a record clears is ordered: its start does not exceed
/// its end.
pub open spec fn ranges_ordered(records: Seq<RetainedTransactionRecord>) -> bool {
    forall|r: int, m: int|
        0 <= r < records.len() && 0 <= m < records[r].command.mutations@.len() ==> (
        #[trigger] records[r].command.mutations@[m] matches Mutation::ClearRange { range }
            ==> lex_le(range.start@, range.end@))
}

/// The replayed values without their versions.
pub open spec fn values_only(state: ReplayState) -> Map<Seq<u8>, Seq<u8>> {
    Map::new(|k: Seq<u8>| state.dom().contains(k), |k: Seq<u8>| state[k].1)
}

/// No key occurs twice among the pairs.
pub open spec fn distinct_pair_keys(pairs: Seq<(Vec<u8>, Vec<u8>)>) -> bool {
    forall|i: int, j: int| 0 <= i < j < pairs.len() ==> pairs[i].0@ != pairs[j].0@
}

/// The map from each key of the pairs to its value.
pub open spec fn pairs_map(pairs: Seq<(Vec<u8>, Vec<u8>)>) -> Map<Seq<u8>, Seq<u8>> {
    Map::new(
        |k: Seq<u8>| exists|i: int| 0 <= i < pairs.len() && pairs[i].0@ == k,
        |k: Seq<u8>| pairs[choose|i: int| 0 <= i < pairs.len() && pairs[i].0@ == k].1@,
    )
}

proof fn lemma_pairs_map_at(pairs: Seq<(Vec<u8>, Vec<u8>)>, i: int)
    requires
        distinct_pair_keys(pairs),
        0 <= i < pairs.len(),
    ensures
        pairs_map(pairs).dom().contains(pairs[i].0@),
        pairs_map(pairs)[pairs[i].0@] == pairs[i].1@,
{
    let k = pairs[i].0@;
    let j = choose|j: int| 0 <= j < pairs.len() && pairs[j].0@ == k;
    if j != i {
        if j < i {
            assert(pairs[j].0@ != pairs[i].0@);
        } else {
            assert(pairs[i].0@ != pairs[j].0@);
        }
    }
}

/// Whether some pair has `key`.
fn pairs_have_key(pairs: &[(Vec<u8>, Vec<u8>)], key: &[u8]) -> (found: bool)
    ensures
        found == exists|i: int| 0 <= i < pairs@.len() && pairs@[i].0@ == key@,
{
    let mut index: usize = 0;
    while index < pairs.len()
        invariant
            index <= pairs@.len(),
            forall|j: int| 0 <= j < index ==> pairs@[j].0@ != key@,
        decreases pairs@.len() - index,
    {
        if bytes_equal(pairs[index].0.as_slice(), key) {
            return true;
        }
        index = index + 1;
    }
    false
}

/// The replayed state, held as entries with distinct keys.
#[derive(Debug)]
pub struct ReplayedValues {
    entries: Vec<(Vec<u8>, VersionedValue)>,
}

pub open spec fn entry_view(entry: (Vec<u8>, VersionedValue)) -> (u64, Seq<u8>) {
    (entry.1.version, entry.1.value@)
}

/// No key occurs twice.
pub open spec fn distinct_keys(entries: Seq<(Vec<u8>, VersionedValue)>) -> bool {
    forall|i: int, j: int| 0 <= i < j < entries.len() ==> entries[i].0@ != entries[j].0@
}

/// `key` is the key of some entry.
pub open spec fn has_key(entries: Seq<(Vec<u8>, VersionedValue)>, key: Seq<u8>) -> bool {
    exists|i: int| 0 <= i < entries.len() && entries[i].0@ == key
}

/// The map from each key to its entry's version and value.
pub open spec fn entries_map(entries: Seq<(Vec<u8>, VersionedValue)>) -> ReplayState {
    Map::new(
        |k: Seq<u8>| has_key(entries, k),
        |k: Seq<u8>| entry_view(entries[choose|i: int| 0 <= i < entries.len() && entries[i].0@ == k]),
    )
}

proof fn lemma_entries_map_at(entries: Seq<(Vec<u8>, VersionedValue)>, i: int)
    requires
        distinct_keys(entries),
        0 <= i < entries.len(),
    ensures
        entries_map(entries).dom().contains(entries[i].0@),
        entries_map(entries)[entries[i].0@] == entry_view(entries[i]),
{
    let k = entries[i].0@;
    assert(has_key(entries, k));
    let j = choose|j: int| 0 <= j < entries.len() && entries[j].0@ == k;
    if j != i {
        if j < i {
            assert(entries[j].0@ != entries[i].0@);
        } else {
            assert(entries[i].0@ != entries[j].0@);
        }
    }
}

proof fn lemma_entries_map_push(entries: Seq<(Vec<u8>, VersionedValue)>, entry: (Vec<u8>, VersionedValue))
    requires
        distinct_keys(entries),
        !has_key(entries, entry.0@),
    ensures
        distinct_keys(entries.push(entry)),
        entries_map(entries.push(entry)) == entries_map(entries).insert(entry.0@, entry_view(entry)),
{
    let next = entries.push(entry);
    assert(distinct_keys(next)) by {
        assert forall|i: int, j: int| 0 <= i < j < next.len() implies next[i].0@ != next[j].0@ by {
            if j == entries.len() {
                assert(entries[i].0@ != entry.0@);
            } else {
                assert(entries[i].0@ != entries[j].0@);
            }
        }
    }
    let lhs = entries_map(next);
    let rhs = entries_map(entries).insert(entry.0@, entry_view(entry));
    assert forall|k: Seq<u8>| lhs.dom().contains(k) <==> rhs.dom().contains(k) by {
        if has_key(next, k) {
            let i = choose|i: int| 0 <= i < next.len() && next[i].0@ == k;
            if i < entries.len() {
                assert(has_key(entries, k));
            }
        }
        if has_key(entries, k) {
            let i = choose|i: int| 0 <= i < entries.len() && entries[i].0@ == k;
            assert(next[i].0@ == k);
        }
        if k == entry.0@ {
            assert(next[entries.len() as int].0@ == k);
        }
    }
    assert forall|k: Seq<u8>| lhs.dom().contains(k) implies lhs[k] == rhs[k] by {
        let i = choose|i: int| 0 <= i < next.len() && next[i].0@ == k;
        lemma_entries_map_at(next, i);
        if i < entries.len() {
            lemma_entries_map_at(entries, i);
        }
    }
    assert(lhs =~= rhs);
}

proof fn lemma_entries_map_update(entries: Seq<(Vec<u8>, VersionedValue)>, i: int, entry: (Vec<u8>, VersionedValue))
    requires
        distinct_keys(entries),
        0 <= i < entries.len(),
        entries[i].0@ == entry.0@,
    ensures
        distinct_keys(entries.update(i, entry)),
        entries_map(entries.update(i, entry)) == entries_map(entries).insert(entry.0@, entry_view(entry)),
{
    let next = entries.update(i, entry);
    assert(distinct_keys(next)) by {
        assert forall|a: int, b: int| 0 <= a < b < next.len() implies next[a].0@ != next[b].0@ by {
            assert(entries[a].0@ != entries[b].0@);
        }
    }
    let lhs = entries_map(next);
    let rhs = entries_map(entries).insert(entry.0@, entry_view(entry));
    assert forall|k: Seq<u8>| lhs.dom().contains(k) <==> rhs.dom().contains(k) by {
        if has_key(next, k) {
            let j = choose|j: int| 0 <= j < next.len() && next[j].0@ == k;
            assert(entries[j].0@ == k);
        }
        if has_key(entries, k) {
            let j = choose|j: int| 0 <= j < entries.len() && entries[j].0@ == k;
            assert(next[j].0@ == k);
        }
        if k == entry.0@ {
            assert(next[i].0@ == k);
        }
    }
    assert forall|k: Seq<u8>| lhs.dom().contains(k) implies lhs[k] == rhs[k] by {
        let j = choose|j: int| 0 <= j < next.len() && next[j].0@ == k;
        lemma_entries_map_at(next, j);
        lemma_entries_map_at(entries, j);
    }
    assert(lhs =~= rhs);
}

proof fn lemma_entries_map_remove(entries: Seq<(Vec<u8>, VersionedValue)>, i: int)
    requires
        distinct_keys(entries),
        0 <= i < entries.len(),
    ensures
        distinct_keys(entries.remove(i)),
        entries_map(entries.remove(i)) == entries_map(entries).remove(entries[i].0@),
{
    let next = entries.remove(i);
    let key = entries[i].0@;
    assert(distinct_keys(next)) by {
        assert forall|a: int, b: int| 0 <= a < b < next.len() implies next[a].0@ != next[b].0@ by {
            let oa = if a < i { a } else { a + 1 };
            let ob = if b < i { b } else { b + 1 };
            assert(entries[oa].0@ != entries[ob].0@);
        }
    }
    let lhs = entries_map(next);
    let rhs = entries_map(entries).remove(key);
    assert forall|k: Seq<u8>| lhs.dom().contains(k) <==> rhs.dom().contains(k) by {
        if has_key(next, k) {
            let j = choose|j: int| 0 <= j < next.len() && next[j].0@ == k;
            let oj = if j < i { j } else { j + 1 };
            assert(entries[oj].0@ == k);
            assert(entries[oj].0@ != entries[i].0@);
        }
        if has_key(entries, k) && k != key {
            let j = choose|j: int| 0 <= j < entries.len() && entries[j].0@ == k;
            assert(j != i);
            if j < i {
                assert(next[j].0@ == k);
            } else {
                assert(next[j - 1].0@ == k);
            }
        }
    }
    assert forall|k: Seq<u8>| lhs.dom().contains(k) implies lhs[k] == rhs[k] by {
        let j = choose|j: int| 0 <= j < next.len() && next[j].0@ == k;
        let oj = if j < i { j } else { j + 1 };
        lemma_entries_map_at(next, j);
        lemma_entries_map_at(entries, oj);
    }
    assert(lhs =~= rhs);
}

/// Whether two byte strings are equal.
pub fn bytes_equal(a: &[u8], b: &[u8]) -> (equal: bool)
    ensures
        equal == (a@ == b@),
{
    if a.len() != b.len() {
        return false;
    }
    let mut index: usize = 0;
    while index < a.len()
        invariant
            a@.len() == b@.len(),
            index <= a@.len(),
            forall|k: int| 0 <= k < index ==> a@[k] == b@[k],
        decreases a@.len() - index,
    {
        if a[index] != b[index] {
            return false;
        }
        index = index + 1;
    }
    assert(a@ =~= b@);
    true
}

/// A copy of a byte vector.
pub fn copy_bytes(bytes: &Vec<u8>) -> (copy: Vec<u8>)
    ensures
        copy@ == bytes@,
{
    let copy = bytes.clone();
    assert(copy@ =~= bytes@);
    copy
}

impl ReplayedValues {
    pub closed spec fn view(&self) -> ReplayState {
        entries_map(self.entries@)
    }

    pub closed spec fn well_formed(&self) -> bool {
        distinct_keys(self.entries@)
    }

    /// The empty state.
    pub fn new() -> (values: Self)
        ensures
            values.well_formed(),
            values.view() == Map::<Seq<u8>, (u64, Seq<u8>)>::empty(),
    {
        let values = ReplayedValues { entries: Vec::new() };
        assert(values.view() =~= Map::<Seq<u8>, (u64, Seq<u8>)>::empty());
        values
    }

    /// The position of `key`, if it is present.
    fn position(&self, key: &[u8]) -> (found: Option<usize>)
        requires
            self.well_formed(),
        ensures
            found matches Some(i) ==> i < self.entries@.len() && self.entries@[i as int].0@ == key@,
            found is None ==> !has_key(self.entries@, key@),
    {
        let mut index: usize = 0;
        while index < self.entries.len()
            invariant
                index <= self.entries@.len(),
                forall|j: int| 0 <= j < index ==> self.entries@[j].0@ != key@,
            decreases self.entries@.len() - index,
        {
            if bytes_equal(self.entries[index].0.as_slice(), key) {
                return Some(index);
            }
            index = index + 1;
        }
        None
    }

    /// The version and value of `key`, if it is present.
    pub fn get(&self, key: &[u8]) -> (found: Option<&VersionedValue>)
        requires
            self.well_formed(),
        ensures
            found is None <==> !self.view().dom().contains(key@),
            found matches Some(v) ==> self.view()[key@] == (v.version, v.value@),
    {
        match self.position(key) {
            Some(i) => {
                proof {
                    lemma_entries_map_at(self.entries@, i as int);
                }
                Some(&self.entries[i].1)
            },
            None => None,
        }
    }

    /// Write `value` at `version` under `key`.
    pub fn set(&mut self, key: &Vec<u8>, version: u64, value: &Vec<u8>)
        requires
            old(self).well_formed(),
        ensures
            final(self).well_formed(),
            final(self).view() == old(self).view().insert(key@, (version, value@)),
    {
        let entry = (copy_bytes(key), VersionedValue { version, value: copy_bytes(value) });
        match self.position(key.as_slice()) {
            Some(i) => {
                proof {
                    lemma_entries_map_update(self.entries@, i as int, entry);
                }
                self.entries.set(i, entry);
            },
            None => {
                proof {
                    lemma_entries_map_push(self.entries@, entry);
                }
                self.entries.push(entry);
            },
        }
    }

    /// Remove `key`.
    pub fn clear(&mut self, key: &Vec<u8>)
        requires
            old(self).well_formed(),
        ensures
            final(self).well_formed(),
            final(self).view() == old(self).view().remove(key@),
    {
        match self.position(key.as_slice()) {
            Some(i) => {
                proof {
                    lemma_entries_map_remove(self.entries@, i as int);
                }
                self.entries.remove(i);
            },
            None => {
                assert(self.view() =~= self.view().remove(key@));
            },
        }
    }

    /// Remove every key of `[start, end)`.
    pub fn clear_range(&mut self, start: &Vec<u8>, end: &Vec<u8>)
        requires
            old(self).well_formed(),
        ensures
            final(self).well_formed(),
            final(self).view() == clear_range(old(self).view(), start@, end@),
    {
        let ghost original = self.entries@;
        let mut index: usize = 0;
        while index < self.entries.len()
            invariant
                index <= self.entries@.len(),
                distinct_keys(self.entries@),
                distinct_keys(original),
                forall|j: int| 0 <= j < index ==> !in_range(#[trigger] self.entries@[j].0@, start@, end@),
                entries_map(self.entries@) == Map::new(
                    |k: Seq<u8>| entries_map(original).dom().contains(k) && !(in_range(k, start@, end@)
                        && !exists|j: int| index <= j < self.entries@.len() && self.entries@[j].0@ == k),
                    |k: Seq<u8>| entries_map(original)[k],
                ),
            decreases self.entries@.len() - index,
        {
            let key = &self.entries[index].0;
            let cleared = bytes_le(start.as_slice(), key.as_slice()) && bytes_le(key.as_slice(), end.as_slice())
                && !bytes_equal(key.as_slice(), end.as_slice());
            if cleared {
                let ghost before = self.entries@;
                let ghost removed = before[index as int].0@;
                proof {
                    lemma_entries_map_remove(before, index as int);
                }
                self.entries.remove(index);
                proof {
                    let now = self.entries@;
                    assert forall|j: int| 0 <= j < index implies !in_range(#[trigger] now[j].0@, start@, end@) by {
                        assert(now[j] == before[j]);
                    }
                    let lhs = entries_map(now);
                    let rhs = Map::new(
                        |k: Seq<u8>| entries_map(original).dom().contains(k) && !(in_range(k, start@, end@)
                            && !exists|j: int| index <= j < now.len() && now[j].0@ == k),
                        |k: Seq<u8>| entries_map(original)[k],
                    );
                    assert forall|k: Seq<u8>| lhs.dom().contains(k) <==> rhs.dom().contains(k) by {
                        if exists|j: int| index <= j < now.len() && now[j].0@ == k {
                            let j = choose|j: int| index <= j < now.len() && now[j].0@ == k;
                            assert(before[j + 1].0@ == k);
                        }
                        if exists|j: int| index <= j < before.len() && before[j].0@ == k {
                            let j = choose|j: int| index <= j < before.len() && before[j].0@ == k;
                            if j > index {
                                assert(now[j - 1].0@ == k);
                            }
                        }
                    }
                    assert(lhs =~= rhs);
                }
            } else {
                proof {
                    let now = self.entries@;
                    let lhs = entries_map(now);
                    let next_rhs = Map::new(
                        |k: Seq<u8>| entries_map(original).dom().contains(k) && !(in_range(k, start@, end@)
                            && !exists|j: int| index + 1 <= j < now.len() && now[j].0@ == k),
                        |k: Seq<u8>| entries_map(original)[k],
                    );
                    assert forall|k: Seq<u8>| lhs.dom().contains(k) <==> next_rhs.dom().contains(k) by {
                        if exists|j: int| index <= j < now.len() && now[j].0@ == k {
                            let j = choose|j: int| index <= j < now.len() && now[j].0@ == k;
                            if j == index {
                                assert(!in_range(k, start@, end@));
                            } else {
                                assert(index + 1 <= j);
                            }
                        }
                    }
                    assert(lhs =~= next_rhs);
                }
                index = index + 1;
            }
        }
        assert(self.view() =~= clear_range(entries_map(original), start@, end@));
    }

    /// Whether the replayed values, versions aside, are exactly the pairs.
    pub fn values_equal(&self, expected: &[(Vec<u8>, Vec<u8>)]) -> (equal: bool)
        requires
            self.well_formed(),
            distinct_pair_keys(expected@),
        ensures
            equal == (values_only(self.view()) == pairs_map(expected@)),
    {
        let mut i: usize = 0;
        while i < expected.len()
            invariant
                i <= expected@.len(),
                self.well_formed(),
                distinct_pair_keys(expected@),
                forall|j: int| 0 <= j < i ==> self.view().dom().contains(#[trigger] expected@[j].0@)
                    && self.view()[expected@[j].0@].1 == expected@[j].1@,
            decreases expected@.len() - i,
        {
            let matched = match self.get(expected[i].0.as_slice()) {
                Some(found) => bytes_equal(found.value.as_slice(), expected[i].1.as_slice()),
                None => false,
            };
            if !matched {
                proof {
                    lemma_pairs_map_at(expected@, i as int);
                    let k = expected@[i as int].0@;
                    if self.view().dom().contains(k) {
                        assert(values_only(self.view())[k] != pairs_map(expected@)[k]);
                    } else {
                        assert(!values_only(self.view()).dom().contains(k));
                    }
                }
                return false;
            }
            i = i + 1;
        }
        let mut j: usize = 0;
        while j < self.entries.len()
            invariant
                j <= self.entries@.len(),
                self.well_formed(),
                forall|a: int| 0 <= a < j ==> exists|b: int| 0 <= b < expected@.len() && expected@[b].0@ == #[trigger] self.entries@[a].0@,
            decreases self.entries@.len() - j,
        {
            if !pairs_have_key(expected, self.entries[j].0.as_slice()) {
                proof {
                    lemma_entries_map_at(self.entries@, j as int);
                    let k = self.entries@[j as int].0@;
                    assert(values_only(self.view()).dom().contains(k));
                    assert(!pairs_map(expected@).dom().contains(k));
                }
                return false;
            }
            j = j + 1;
        }
        proof {
            let lhs = values_only(self.view());
            let rhs = pairs_map(expected@);
            assert forall|k: Seq<u8>| lhs.dom().contains(k) <==> rhs.dom().contains(k) by {
                if lhs.dom().contains(k) {
                    let a = choose|a: int| 0 <= a < self.entries@.len() && self.entries@[a].0@ == k;
                    assert(exists|b: int| 0 <= b < expected@.len() && expected@[b].0@ == self.entries@[a].0@);
                }
                if rhs.dom().contains(k) {
                    let b = choose|b: int| 0 <= b < expected@.len() && expected@[b].0@ == k;
                    assert(self.view().dom().contains(expected@[b].0@));
                }
            }
            assert forall|k: Seq<u8>| rhs.dom().contains(k) implies lhs[k] == rhs[k] by {
                let b = choose|b: int| 0 <= b < expected@.len() && expected@[b].0@ == k;
                lemma_pairs_map_at(expected@, b);
                assert(self.view()[expected@[b].0@].1 == expected@[b].1@);
            }
            assert(lhs =~= rhs);
        }
        true
    }

    /// Apply one mutation committed at `version`.
    pub fn apply(&mut self, version: u64, mutation: &Mutation)
        requires
            old(self).well_formed(),
        ensures
            final(self).well_formed(),
            final(self).view() == apply_mutation(old(self).view(), version, *mutation),
    {
        match mutation {
            Mutation::SetValue { key, value } => self.set(key, version, value),
            Mutation::Clear { key } => self.clear(key),
            Mutation::ClearRange { range } => self.clear_range(&range.start, &range.end),
        }
    }
}

/// Replay the retained records, in order, from the empty state.
pub fn replay_values(records: &[RetainedTransactionRecord]) -> (values: ReplayedValues)
    requires
        ranges_ordered(records@),
    ensures
        values.well_formed(),
        values.view() == replay_spec(records@),
{
    let mut values = ReplayedValues::new();
    let mut r: usize = 0;
    while r < records.len()
        invariant
            r <= records@.len(),
            values.well_formed(),
            values.view() == replay_spec(records@.take(r as int)),
        decreases records@.len() - r,
    {
        let record = &records[r];
        let mutations = &record.command.mutations;
        let ghost start = values.view();
        let mut m: usize = 0;
        while m < mutations.len()
            invariant
                m <= mutations@.len(),
                values.well_formed(),
                values.view() == apply_mutations(start, record.commit_version, mutations@.take(m as int)),
            decreases mutations@.len() - m,
        {
            values.apply(record.commit_version, &mutations[m]);
            assert(mutations@.take(m + 1).drop_last() =~= mutations@.take(m as int));
            m = m + 1;
        }
        assert(mutations@.take(mutations@.len() as int) =~= mutations@);
        assert(records@.take(r + 1).drop_last() =~= records@.take(r as int));
        r = r + 1;
    }
    assert(records@.take(records@.len() as int) =~= records@);
    values
}

} // verus!
