//! An append-only event store kept in memory: one stream of events per
//! aggregate, found by the aggregate's identifier.

use vstd::hash_map::StringHashMap;
use vstd::prelude::*;

verus! {

/// Why the store refuses to append.
#[derive(Debug, PartialEq, Eq, Clone, Copy, Structural)]
pub enum StoreError {
    /// The stream is not at the version the writer expected.
    VersionConflict,
}

/// The events of one aggregate, in the order they were appended.
struct Stream<E> {
    aggregate_id: String,
    events: Vec<E>,
}

/// The event store. Streams stand in the order of their first append.
pub struct EventStore<E> {
    index: StringHashMap<usize>,
    streams: Vec<Stream<E>>,
}

/// The events a store holds for an aggregate: none where it has no stream.
pub open spec fn events_of<E>(streams: Map<Seq<char>, Seq<E>>, aggregate_id: Seq<char>) -> Seq<E> {
    if streams.contains_key(aggregate_id) {
        streams[aggregate_id]
    } else {
        Seq::empty()
    }
}

impl<E> View for EventStore<E> {
    type V = Map<Seq<char>, Seq<E>>;

    closed spec fn view(&self) -> Map<Seq<char>, Seq<E>> {
        Map::new(
            |id: Seq<char>| self.index@.contains_key(id),
            |id: Seq<char>| self.streams@[self.index@[id] as int].events@,
        )
    }
}

impl<E> EventStore<E> {
    /// The identifiers of the streams, in the order of their first append.
    pub closed spec fn ids(&self) -> Seq<Seq<char>> {
        Seq::new(self.streams@.len(), |i: int| self.streams@[i].aggregate_id@)
    }

    /// What holds of every store: the index and the streams agree, and no
    /// stream is empty.
    #[verifier::type_invariant]
    pub closed spec fn wf(&self) -> bool {
        &&& forall|id: Seq<char>| #[trigger]
            self.index@.contains_key(id) ==> (self.index@[id] as int) < self.streams@.len()
                && self.streams@[self.index@[id] as int].aggregate_id@ == id
        &&& forall|i: int|
            0 <= i < self.streams@.len() ==> self.index@.contains_key(
                (#[trigger] self.streams@[i]).aggregate_id@,
            ) && self.index@[self.streams@[i].aggregate_id@] == i
        &&& forall|i: int|
            0 <= i < self.streams@.len() ==> (#[trigger] self.streams@[i]).events@.len() > 0
    }

    /// The streams of a store are those its identifiers name, each named
    /// once, and none of them is empty.
    pub proof fn lemma_ids(&self)
        requires
            self.wf(),
        ensures
            forall|i: int|
                0 <= i < self.ids().len() ==> self@.contains_key(#[trigger] self.ids()[i]),
            forall|id: Seq<char>| #[trigger] self@.contains_key(id) ==> self.ids().contains(id),
            forall|i: int, j: int| 0 <= i < j < self.ids().len() ==> self.ids()[i] != self.ids()[j],
            forall|id: Seq<char>| #[trigger] self@.contains_key(id) ==> self@[id].len() > 0,
    {
        assert forall|i: int| 0 <= i < self.ids().len() implies self@.contains_key(
            #[trigger] self.ids()[i],
        ) by {
            let _ = self.streams@[i];
        }
        assert forall|id: Seq<char>| #[trigger] self@.contains_key(id) implies self.ids().contains(
            id,
        ) by {
            assert(self.index@.contains_key(id));
            assert(self.ids()[self.index@[id] as int] == id);
        }
        assert forall|i: int, j: int| 0 <= i < j < self.ids().len() implies self.ids()[i]
            != self.ids()[j] by {
            let _ = self.streams@[i];
            let _ = self.streams@[j];
        }
        assert forall|id: Seq<char>| #[trigger] self@.contains_key(id) implies self@[id].len()
            > 0 by {
            assert(self.index@.contains_key(id));
            let _ = self.streams@[self.index@[id] as int];
        }
    }

    /// An empty store.
    pub fn new() -> (r: Self)
        ensures
            r@ == Map::<Seq<char>, Seq<E>>::empty(),
            r.ids() == Seq::<Seq<char>>::empty(),
    {
        let r = EventStore { index: StringHashMap::new(), streams: Vec::new() };
        assert(r@ =~= Map::<Seq<char>, Seq<E>>::empty());
        assert(r.ids() =~= Seq::<Seq<char>>::empty());
        r
    }

    /// The events of an aggregate in the order they were appended, or
    /// none where the aggregate has no events. The version of the stream
    /// is the number of its events.
    pub fn load(&self, aggregate_id: &str) -> (r: Option<&Vec<E>>)
        ensures
            match r {
                Some(events) => self@.contains_key(aggregate_id@) && events@
                    == self@[aggregate_id@],
                None => !self@.contains_key(aggregate_id@),
            },
    {
        proof {
            use_type_invariant(self);
        }
        match self.index.get(aggregate_id) {
            Some(i) => Some(&self.streams[*i].events),
            None => None,
        }
    }

    /// The version of an aggregate's stream: the number of its events.
    pub fn version(&self, aggregate_id: &str) -> (r: usize)
        ensures
            r == events_of(self@, aggregate_id@).len(),
    {
        match self.load(aggregate_id) {
            Some(events) => events.len(),
            None => 0,
        }
    }

    /// Appends events to an aggregate's stream, all of them or none: the
    /// append is refused where the stream is not at the expected version.
    pub fn append(&mut self, aggregate_id: &str, expected_version: usize, events: Vec<E>) -> (r:
        Result<(), StoreError>)
        ensures
            expected_version != events_of(old(self)@, aggregate_id@).len() ==> r == Err::<
                (),
                StoreError,
            >(StoreError::VersionConflict) && final(self)@ == old(self)@ && final(self).ids()
                == old(self).ids(),
            expected_version == events_of(old(self)@, aggregate_id@).len() ==> r == Ok::<
                (),
                StoreError,
            >(()),
            expected_version == events_of(old(self)@, aggregate_id@).len() && events@.len() == 0
                ==> final(self)@ == old(self)@ && final(self).ids() == old(self).ids(),
            expected_version == events_of(old(self)@, aggregate_id@).len() && events@.len() > 0
                ==> final(self)@ == old(self)@.insert(
                aggregate_id@,
                events_of(old(self)@, aggregate_id@) + events@,
            ) && final(self).ids() == (if old(self)@.contains_key(aggregate_id@) {
                old(self).ids()
            } else {
                old(self).ids().push(aggregate_id@)
            }),
    {
        proof {
            use_type_invariant(&*self);
        }
        let ghost appended = events@;
        let mut events = events;
        let found: Option<usize> = match self.index.get(aggregate_id) {
            Some(position) => Some(*position),
            None => None,
        };
        let version = match found {
            Some(i) => self.streams[i].events.len(),
            None => 0,
        };
        if expected_version != version {
            return Err(StoreError::VersionConflict);
        }
        if events.len() == 0 {
            return Ok(());
        }
        // The store is taken apart, changed, and put together again.
        let mut taken = EventStore::new();
        core::mem::swap(self, &mut taken);
        let EventStore { index, streams } = taken;
        let mut index = index;
        let mut streams = streams;
        let ghost before = streams@;
        match found {
            Some(i) => {
                let stream = &mut streams[i];
                stream.events.append(&mut events);
                proof {
                    assert(streams@.len() == before.len());
                    assert(forall|j: int|
                        0 <= j < before.len() ==> (#[trigger] streams@[j]).aggregate_id
                            == before[j].aggregate_id);
                    assert(forall|j: int|
                        0 <= j < before.len() && j != i ==> (#[trigger] streams@[j]) == before[j]);
                }
            },
            None => {
                let position = streams.len();
                index.insert(aggregate_id.to_owned(), position);
                streams.push(Stream { aggregate_id: aggregate_id.to_owned(), events });
            },
        }
        let changed = EventStore { index, streams };
        proof {
            if found is Some {
                assert(changed.ids() =~= old(self).ids());
            } else {
                assert(changed.ids() =~= old(self).ids().push(aggregate_id@));
            }
            assert(changed@ =~= old(self)@.insert(
                aggregate_id@,
                events_of(old(self)@, aggregate_id@) + appended,
            ));
        }
        *self = changed;
        Ok(())
    }

    /// The number of streams in the store.
    pub fn stream_count(&self) -> (r: usize)
        ensures
            r == self.ids().len(),
    {
        self.streams.len()
    }

    /// The identifier of the stream at a position.
    pub fn aggregate_id_at(&self, position: usize) -> (r: &String)
        requires
            position < self.ids().len(),
        ensures
            r@ == self.ids()[position as int],
    {
        &self.streams[position].aggregate_id
    }

    /// The events of the stream at a position.
    pub fn events_at(&self, position: usize) -> (r: &Vec<E>)
        requires
            position < self.ids().len(),
        ensures
            self@.contains_key(self.ids()[position as int]),
            r@ == self@[self.ids()[position as int]],
    {
        proof {
            use_type_invariant(self);
        }
        &self.streams[position].events
    }
}

} // verus!
