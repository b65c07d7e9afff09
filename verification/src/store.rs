//! The collection of saved templates, keyed by name, and the time stamps
//! that records carry.

use vstd::prelude::*;

use crate::text::{chars_eq, chars_of};

verus! {

/// A saved template.
#[derive(Debug, Clone)]
pub struct TemplateRecord {
    pub key: String,
    /// Optional short description/summary for local reference
    pub description: String,
    pub template: String,
    pub created_at: u64,
}

/// A path in the file system.
#[verifier::external_type_specification]
#[verifier::external_body]
pub struct ExPathBuf(std::path::PathBuf);

/// The map that a list of entries stands for: each entry binds its name to
/// its record, a later entry overriding an earlier one of the same name.
pub open spec fn entries_map(entries: Seq<(String, TemplateRecord)>) -> Map<Seq<char>, TemplateRecord>
    decreases entries.len(),
{
    if entries.len() == 0 {
        Map::empty()
    } else {
        entries_map(entries.drop_last()).insert(entries.last().0@, entries.last().1)
    }
}

/// No two entries share a name.
pub open spec fn distinct_names(entries: Seq<(String, TemplateRecord)>) -> bool {
    forall|i: int, j: int|
        0 <= i < j < entries.len() ==> (#[trigger] entries[i]).0@ != (#[trigger] entries[j]).0@
}

/// A name is bound exactly where some entry carries it.
proof fn lemma_entries_map_domain(entries: Seq<(String, TemplateRecord)>, name: Seq<char>)
    ensures
        entries_map(entries).contains_key(name) <==> exists|i: int|
            0 <= i < entries.len() && (#[trigger] entries[i]).0@ == name,
    decreases entries.len(),
{
    if entries.len() > 0 {
        let front = entries.drop_last();
        lemma_entries_map_domain(front, name);
        if entries_map(front).contains_key(name) {
            let i = choose|i: int| 0 <= i < front.len() && (#[trigger] front[i]).0@ == name;
            assert(entries[i] == front[i]);
        }
        if exists|i: int| 0 <= i < entries.len() && (#[trigger] entries[i]).0@ == name {
            let i = choose|i: int| 0 <= i < entries.len() && (#[trigger] entries[i]).0@ == name;
            if i < entries.len() - 1 {
                assert(front[i] == entries[i]);
            }
        }
    }
}

/// With distinct names, the record bound to an entry's name is that entry's.
proof fn lemma_entries_map_value(entries: Seq<(String, TemplateRecord)>, i: int)
    requires
        distinct_names(entries),
        0 <= i < entries.len(),
    ensures
        entries_map(entries).contains_key(entries[i].0@),
        entries_map(entries)[entries[i].0@] == entries[i].1,
    decreases entries.len(),
{
    if i < entries.len() - 1 {
        let front = entries.drop_last();
        assert(front[i] == entries[i]);
        assert(distinct_names(front));
        lemma_entries_map_value(front, i);
        assert(entries[i].0@ != entries[entries.len() - 1].0@);
    }
}

/// Replacing the entry at `i` by one of the same name rebinds that name.
proof fn lemma_entries_map_update(
    entries: Seq<(String, TemplateRecord)>,
    i: int,
    entry: (String, TemplateRecord),
)
    requires
        distinct_names(entries),
        0 <= i < entries.len(),
        entries[i].0@ == entry.0@,
    ensures
        entries_map(entries.update(i, entry)) =~= entries_map(entries).insert(entry.0@, entry.1),
    decreases entries.len(),
{
    let updated = entries.update(i, entry);
    let front = entries.drop_last();
    if i == entries.len() - 1 {
        assert(updated.drop_last() =~= front);
    } else {
        assert(updated.drop_last() =~= front.update(i, entry));
        assert(front[i] == entries[i]);
        assert(distinct_names(front));
        lemma_entries_map_update(front, i, entry);
        assert(entries[i].0@ != entries[entries.len() - 1].0@);
    }
}

/// The saved templates and the file they are kept in.
pub struct TemplateStore {
    path: std::path::PathBuf,
    entries: Vec<(String, TemplateRecord)>,
}

impl View for TemplateStore {
    type V = Map<Seq<char>, TemplateRecord>;

    closed spec fn view(&self) -> Map<Seq<char>, TemplateRecord> {
        entries_map(self.entries@)
    }
}

impl TemplateStore {
    #[verifier::type_invariant]
    spec fn names_distinct(self) -> bool {
        distinct_names(self.entries@)
    }

    /// The file the templates are kept in.
    pub closed spec fn location(&self) -> std::path::PathBuf {
        self.path
    }

    /// The store kept in the file `path`, opened with the entries read from
    /// it (none where the file is missing or blank), each binding a name to
    /// a record; where names repeat, the later entry wins.
    pub fn open(path: std::path::PathBuf, entries: Vec<(String, TemplateRecord)>) -> (r:
        TemplateStore)
        ensures
            r@ == entries_map(entries@),
            r.location() == path,
    {
        let mut store = TemplateStore { path, entries: Vec::new() };
        assert(store@ =~= entries_map(entries@.take(0)));
        let mut source = entries;
        let ghost all = source@;
        let count = source.len();
        let mut n: usize = 0;
        assert(all.skip(0) =~= all);
        while source.len() > 0
            invariant
                n <= all.len(),
                all.len() == count,
                source@ == all.skip(n as int),
                store@ == entries_map(all.take(n as int)),
                store.location() == path,
            decreases source.len(),
        {
            let e = source.remove(0);
            assert(e == all[n as int]);
            let (name, record) = e;
            store.bind(name, record);
            assert(all.take(n + 1).drop_last() =~= all.take(n as int));
            n += 1;
            assert(source@ =~= all.skip(n as int));
        }
        assert(all.take(n as int) =~= all);
        store
    }

    /// Binds `name` to `record`.
    fn bind(&mut self, name: String, record: TemplateRecord)
        ensures
            final(self)@ == old(self)@.insert(name@, record),
            final(self).location() == old(self).location(),
    {
        proof {
            use_type_invariant(&*self);
        }
        let name_chars = chars_of(name.as_str());
        let found = self.position(name_chars.as_slice());
        let mut entries: Vec<(String, TemplateRecord)> = Vec::new();
        std::mem::swap(&mut entries, &mut self.entries);
        match found {
            Some(i) => {
                proof {
                    lemma_entries_map_update(entries@, i as int, (name, record));
                }
                entries.set(i, (name, record));
            },
            None => {
                proof {
                    lemma_entries_map_domain(entries@, name@);
                }
                entries.push((name, record));
                assert(entries@.drop_last() =~= old(self).entries@);
            },
        }
        self.entries = entries;
    }

    /// The index of the entry named `name`, if any.
    fn position(&self, name: &[char]) -> (r: Option<usize>)
        ensures
            r matches Some(i) ==> i < self.entries@.len() && self.entries@[i as int].0@ == name@,
            r is None ==> forall|i: int|
                0 <= i < self.entries@.len() ==> (#[trigger] self.entries@[i]).0@ != name@,
    {
        let mut i: usize = 0;
        while i < self.entries.len()
            invariant
                i <= self.entries@.len(),
                forall|m: int| 0 <= m < i ==> (#[trigger] self.entries@[m]).0@ != name@,
            decreases self.entries@.len() - i,
        {
            let candidate = chars_of(self.entries[i].0.as_str());
            if chars_eq(candidate.as_slice(), name) {
                return Some(i);
            }
            i += 1;
        }
        None
    }

    /// The record saved under `key`, if any.
    pub fn get(&self, key: &str) -> (r: Option<&TemplateRecord>)
        ensures
            r matches Some(rec) ==> self@.contains_key(key@) && *rec == self@[key@],
            r is None ==> !self@.contains_key(key@),
    {
        proof {
            use_type_invariant(self);
            lemma_entries_map_domain(self.entries@, key@);
        }
        let key_chars = chars_of(key);
        match self.position(key_chars.as_slice()) {
            Some(i) => {
                proof {
                    lemma_entries_map_value(self.entries@, i as int);
                }
                Some(&self.entries[i].1)
            },
            None => None,
        }
    }

    /// Whether a record is saved under `key`.
    pub fn contains(&self, key: &str) -> (b: bool)
        ensures
            b == self@.contains_key(key@),
    {
        proof {
            use_type_invariant(self);
            lemma_entries_map_domain(self.entries@, key@);
        }
        let key_chars = chars_of(key);
        self.position(key_chars.as_slice()).is_some()
    }

    /// The file the templates are kept in.
    pub fn path(&self) -> (r: &std::path::PathBuf)
        ensures
            *r == self.location(),
    {
        &self.path
    }

    /// Saves `record` under its own key, replacing any record saved there.
    pub fn upsert(&mut self, record: TemplateRecord)
        ensures
            final(self)@ == old(self)@.insert(record.key@, record),
            final(self).location() == old(self).location(),
    {
        let name = record.key.clone();
        self.bind(name, record);
    }

    /// The entries of the store, each binding a name to its record; no two
    /// share a name.
    pub fn entries(&self) -> (r: &[(String, TemplateRecord)])
        ensures
            entries_map(r@) == self@,
            distinct_names(r@),
    {
        proof {
            use_type_invariant(self);
        }
        self.entries.as_slice()
    }
}

// ---------------------------------------------------------------------------
// Laws of the store
// ---------------------------------------------------------------------------

/// After a record is saved, its key finds that record, and every other key
/// finds what it found before.
pub proof fn law_upsert_then_get(
    before: TemplateStore,
    after: TemplateStore,
    record: TemplateRecord,
    other: Seq<char>,
)
    requires
        after@ == before@.insert(record.key@, record),
    ensures
        after@.contains_key(record.key@),
        after@[record.key@] == record,
        other != record.key@ ==> after@.contains_key(other) == before@.contains_key(other),
        other != record.key@ && before@.contains_key(other) ==> after@[other] == before@[other],
{
}

/// The templates after saving each of `records` in turn, starting from `start`.
pub open spec fn upserted(
    start: Map<Seq<char>, TemplateRecord>,
    records: Seq<TemplateRecord>,
) -> Map<Seq<char>, TemplateRecord>
    decreases records.len(),
{
    if records.len() == 0 {
        start
    } else {
        upserted(start, records.drop_last()).insert(records.last().key@, records.last())
    }
}

/// A run of saves, each step as `upsert` leaves the store, keeps the file
/// and gives the templates of the start with every record saved in turn.
pub proof fn law_upsert_sequence(stores: Seq<TemplateStore>, records: Seq<TemplateRecord>)
    requires
        stores.len() == records.len() + 1,
        forall|k: int|
            #![trigger records[k]]
            0 <= k < records.len() ==> stores[k + 1]@ == stores[k]@.insert(records[k].key@, records[k])
                && stores[k + 1].location() == stores[k].location(),
    ensures
        stores.last()@ == upserted(stores[0]@, records),
        stores.last().location() == stores[0].location(),
    decreases records.len(),
{
    if records.len() > 0 {
        let fewer = stores.drop_last();
        let earlier = records.drop_last();
        assert forall|k: int|
            #![trigger earlier[k]]
            0 <= k < earlier.len() implies fewer[k + 1]@ == fewer[k]@.insert(
                earlier[k].key@,
                earlier[k],
            ) && fewer[k + 1].location() == fewer[k].location() by {
            assert(earlier[k] == records[k]);
        }
        law_upsert_sequence(fewer, earlier);
        let last = records.len() - 1;
        assert(records[last] == records.last());
    }
}

/// After a run of saves, a key finds the last record saved under it.
pub proof fn law_last_save_wins(
    start: Map<Seq<char>, TemplateRecord>,
    records: Seq<TemplateRecord>,
    i: int,
)
    requires
        0 <= i < records.len(),
        forall|j: int| i < j < records.len() ==> (#[trigger] records[j]).key@ != records[i].key@,
    ensures
        upserted(start, records).contains_key(records[i].key@),
        upserted(start, records)[records[i].key@] == records[i],
    decreases records.len(),
{
    if i < records.len() - 1 {
        let earlier = records.drop_last();
        assert(earlier[i] == records[i]);
        assert forall|j: int| i < j < earlier.len() implies (#[trigger] earlier[j]).key@
            != earlier[i].key@ by {
            assert(earlier[j] == records[j]);
        }
        law_last_save_wins(start, earlier, i);
        assert(records.last() == records[records.len() - 1]);
    }
}

/// Saving a record twice under the same key leaves the store as saving it once.
pub proof fn law_upsert_idempotent(
    before: TemplateStore,
    once: TemplateStore,
    twice: TemplateStore,
    record: TemplateRecord,
)
    requires
        once@ == before@.insert(record.key@, record),
        twice@ == once@.insert(record.key@, record),
    ensures
        twice@ == once@,
{
    assert(twice@ =~= once@);
}

/// Two lists of entries with distinct names that hold the same entries, in
/// any order, stand for the same templates: a store written out as its
/// entries and read back in another order holds what it held.
pub proof fn law_entries_order_free(
    a: Seq<(String, TemplateRecord)>,
    b: Seq<(String, TemplateRecord)>,
)
    requires
        distinct_names(a),
        distinct_names(b),
        forall|i: int| 0 <= i < a.len() ==> b.contains(#[trigger] a[i]),
        forall|j: int| 0 <= j < b.len() ==> a.contains(#[trigger] b[j]),
    ensures
        entries_map(a) == entries_map(b),
{
    assert forall|k: Seq<char>| #[trigger] entries_map(a).contains_key(k) implies entries_map(
        b,
    ).contains_key(k) && entries_map(b)[k] == entries_map(a)[k] by {
        lemma_entries_map_domain(a, k);
        let i = choose|i: int| 0 <= i < a.len() && (#[trigger] a[i]).0@ == k;
        assert(b.contains(a[i]));
        let j = choose|j: int| 0 <= j < b.len() && b[j] == a[i];
        lemma_entries_map_value(a, i);
        lemma_entries_map_value(b, j);
    }
    assert forall|k: Seq<char>| #[trigger] entries_map(b).contains_key(k) implies entries_map(
        a,
    ).contains_key(k) by {
        lemma_entries_map_domain(b, k);
        let j = choose|j: int| 0 <= j < b.len() && (#[trigger] b[j]).0@ == k;
        assert(a.contains(b[j]));
        let i = choose|i: int| 0 <= i < a.len() && a[i] == b[j];
        lemma_entries_map_value(a, i);
    }
    assert(entries_map(a) =~= entries_map(b));
}

} // verus!
