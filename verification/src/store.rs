//! The observable store: an append-only sequence of records with a revision counter.

use vstd::prelude::*;

verus! {

/// The mathematical value of a store: its records in arrival order and the number of
/// appends it has accepted.
pub struct StoreState {
    pub records: Seq<Seq<char>>,
    pub revision: nat,
}

impl StoreState {
    /// The store before any append.
    pub open spec fn empty() -> StoreState {
        StoreState { records: Seq::empty(), revision: 0 }
    }

    /// The store after one more record has arrived.
    pub open spec fn append(self, record: Seq<char>) -> StoreState {
        StoreState { records: self.records.push(record), revision: self.revision + 1 }
    }

    /// The store after `records` have arrived one by one, first to last.
    pub open spec fn append_all(self, records: Seq<Seq<char>>) -> StoreState
        decreases records.len(),
    {
        if records.len() == 0 {
            self
        } else {
            self.append_all(records.drop_last()).append(records.last())
        }
    }

    /// The revision counts exactly the records held.
    pub open spec fn consistent(self) -> bool {
        self.revision == self.records.len()
    }

    /// `self` is `earlier` with zero or more appends made since: every record of
    /// `earlier` is still in its place, and the revision has grown by the number of
    /// records that came after.
    pub open spec fn extends(self, earlier: StoreState) -> bool {
        &&& earlier.records.len() <= self.records.len()
        &&& self.records.subrange(0, earlier.records.len() as int) == earlier.records
        &&& self.revision - earlier.revision == self.records.len() - earlier.records.len()
    }
}

/// The text of each string of a vector, in order.
pub open spec fn texts(strings: Seq<String>) -> Seq<Seq<char>> {
    Seq::new(strings.len(), |i: int| strings[i]@)
}

/// What a reader sees of a store: its records and revision as they were when the
/// snapshot was taken. It shares nothing with the store it came from.
#[derive(Debug)]
pub struct Snapshot {
    pub records: Vec<String>,
    pub revision: u64,
}

impl View for Snapshot {
    type V = StoreState;

    open spec fn view(&self) -> StoreState {
        StoreState { records: texts(self.records@), revision: self.revision as nat }
    }
}

/// An append-only store of discovered services. The revision is the number of
/// appends made, which is the number of records held.
pub struct Services {
    services: Vec<String>,
}

impl View for Services {
    type V = StoreState;

    closed spec fn view(&self) -> StoreState {
        StoreState { records: texts(self.services@), revision: self.services@.len() }
    }
}

impl Services {
    /// An empty store at revision zero.
    pub fn new() -> (store: Services)
        ensures
            store@ == StoreState::empty(),
    {
        let store = Services { services: Vec::new() };
        assert(store@.records =~= Seq::empty());
        store
    }

    /// Appends `service` as the newest record and advances the revision by one.
    pub fn add(&mut self, service: &str)
        ensures
            final(self)@ == old(self)@.append(service@),
    {
        self.services.push(service.to_owned());
        assert(self@.records =~= old(self)@.records.push(service@));
    }

    /// The number of appends made so far.
    pub fn revision(&self) -> (revision: u64)
        ensures
            revision == self@.revision,
    {
        self.services.len() as u64
    }

    /// The number of records held.
    pub fn len(&self) -> (len: usize)
        ensures
            len == self@.records.len(),
    {
        self.services.len()
    }

    /// The record at `index` in arrival order, if there is one.
    pub fn get(&self, index: usize) -> (record: Option<&str>)
        ensures
            match record {
                Some(text) => index < self@.records.len() && text@ == self@.records[index as int],
                None => index >= self@.records.len(),
            },
    {
        if index < self.services.len() {
            Some(self.services[index].as_str())
        } else {
            None
        }
    }

    /// A copy of the records and the revision as they are now. Later appends to the
    /// store do not reach it.
    pub fn snapshot(&self) -> (snapshot: Snapshot)
        ensures
            snapshot@ == self@,
    {
        let records = self.services.clone();
        assert(texts(records@) =~= texts(self.services@));
        Snapshot { records, revision: self.services.len() as u64 }
    }

    /// The revision of a store is the number of its records, at all times.
    pub proof fn law_consistent(&self)
        ensures
            self@.consistent(),
    {
    }
}

/// Appending records one by one puts them, in their order, behind the records that
/// were there, and advances the revision by their number.
pub proof fn lemma_append_all(store: StoreState, records: Seq<Seq<char>>)
    ensures
        store.append_all(records) == (StoreState {
            records: store.records + records,
            revision: store.revision + records.len(),
        }),
    decreases records.len(),
{
    if records.len() == 0 {
        assert(store.records + records =~= store.records);
    } else {
        lemma_append_all(store, records.drop_last());
        assert(store.records + records =~= (store.records + records.drop_last()).push(
            records.last(),
        ));
    }
}

/// A store is append-only: whatever is appended, and however much, the records
/// that were there keep their places, the length grows by the number of appends,
/// and so does the revision, one for each append.
pub proof fn law_append_only(store: StoreState, records: Seq<Seq<char>>)
    ensures
        store.append_all(records).extends(store),
        store.append_all(records).records.len() == store.records.len() + records.len(),
        store.append_all(records).revision == store.revision + records.len(),
        store.consistent() ==> store.append_all(records).consistent(),
{
    lemma_append_all(store, records);
    assert((store.records + records).subrange(0, store.records.len() as int)
        =~= store.records);
}

/// A store that began empty holds exactly what was appended, in the order of the
/// appends, and its revision is their number.
pub proof fn law_revision_counts_appends(records: Seq<Seq<char>>)
    ensures
        StoreState::empty().append_all(records) == (StoreState {
            records,
            revision: records.len(),
        }),
{
    lemma_append_all(StoreState::empty(), records);
    assert(Seq::<Seq<char>>::empty() + records =~= records);
}

/// A snapshot does not see what is appended after it was taken, and one taken
/// after the append holds the new record. A snapshot has the value of the store at
/// the time it is taken: with `before` that value before an append and `after` the
/// value after it, `after` is `before` with the new record behind it, one revision
/// later, and `before` is `after` without its last record.
pub proof fn law_snapshot_isolation(store: StoreState, record: Seq<char>)
    ensures
        ({
            let before = store;
            let after = store.append(record);
            &&& after.records.len() == before.records.len() + 1
            &&& after.records.last() == record
            &&& after.records.drop_last() == before.records
            &&& after.revision == before.revision + 1
            &&& after.extends(before)
            &&& !before.extends(after)
        }),
{
    let after = store.append(record);
    assert(after.records.drop_last() =~= store.records);
    assert(after.records.subrange(0, store.records.len() as int) =~= store.records);
}

} // verus!
