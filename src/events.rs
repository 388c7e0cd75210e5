//! The event stream of one aggregate instance: appends under an
//! expected-version precondition, loads in sequence order, and the single
//! current snapshot that shortens replay.
use vstd::prelude::*;
use crate::error::MysqlAggregateError;

verus! {

/// An event to be committed: its type discriminator and serialized parts.
#[derive(Debug, Clone, PartialEq)]
pub struct EventData {
    pub event_type: String,
    pub payload: String,
    pub metadata: String,
}

/// A committed event with the sequence number it was committed at.
#[derive(Debug, Clone, PartialEq)]
pub struct SerializedEvent {
    pub sequence: u64,
    pub event_type: String,
    pub payload: String,
    pub metadata: String,
}

/// The serialized state of an aggregate as of event `sequence`.
#[derive(Debug, Clone, PartialEq)]
pub struct Snapshot {
    pub sequence: u64,
    pub state: String,
}

/// What a stream holds: its events in order, and its current snapshot.
pub type StreamModel = (Seq<SerializedEvent>, Option<Snapshot>);

/// The events of `batch` committed right after sequence number `after`.
pub open spec fn stamped(batch: Seq<EventData>, after: nat) -> Seq<SerializedEvent> {
    Seq::new(
        batch.len(),
        |j: int|
            SerializedEvent {
                sequence: (after + 1 + j) as u64,
                event_type: batch[j].event_type,
                payload: batch[j].payload,
                metadata: batch[j].metadata,
            },
    )
}

/// Sequence numbers run 1, 2, 3, ... without a gap.
pub open spec fn contiguous(events: Seq<SerializedEvent>) -> bool {
    forall|i: int| 0 <= i < events.len() ==> #[trigger] events[i].sequence == i + 1
}

/// A stream is well formed: contiguous, and its snapshot not ahead of it.
pub open spec fn stream_wf(s: StreamModel) -> bool {
    &&& contiguous(s.0)
    &&& s.1 matches Some(snap) ==> snap.sequence <= s.0.len()
}

/// An append is accepted where it was computed against the stored version;
/// an empty batch writes nothing and cannot collide.
pub open spec fn append_accepted(events: Seq<SerializedEvent>, expected: u64, batch: Seq<EventData>) -> bool {
    batch.len() == 0 || expected == events.len()
}

/// The events after an append: the whole batch added, or nothing.
pub open spec fn after_append(events: Seq<SerializedEvent>, expected: u64, batch: Seq<EventData>) -> Seq<SerializedEvent> {
    if append_accepted(events, expected, batch) {
        events + stamped(batch, expected as nat)
    } else {
        events
    }
}

/// What a load that starts from the snapshot returns: the snapshot, and
/// the events committed after it.
pub open spec fn from_snapshot(s: StreamModel) -> (Option<Snapshot>, Seq<SerializedEvent>) {
    let start: int = match s.1 {
        Some(snap) => snap.sequence as int,
        None => 0,
    };
    (s.1, s.0.subrange(start, s.0.len() as int))
}

/// The event stream and current snapshot of one aggregate instance.
pub struct EventStream {
    events: Vec<SerializedEvent>,
    snapshot: Option<Snapshot>,
}

impl View for EventStream {
    type V = StreamModel;

    closed spec fn view(&self) -> StreamModel {
        (self.events@, self.snapshot)
    }
}

fn copy_event(e: &SerializedEvent) -> (r: SerializedEvent)
    ensures
        r == *e,
{
    SerializedEvent {
        sequence: e.sequence,
        event_type: e.event_type.clone(),
        payload: e.payload.clone(),
        metadata: e.metadata.clone(),
    }
}

fn copy_snapshot(s: &Option<Snapshot>) -> (r: Option<Snapshot>)
    ensures
        r == *s,
{
    match s {
        Some(snap) => Some(Snapshot { sequence: snap.sequence, state: snap.state.clone() }),
        None => None,
    }
}

/// The events of `events` from index `start` on, copied.
fn copy_from(events: &Vec<SerializedEvent>, start: usize) -> (r: Vec<SerializedEvent>)
    requires
        start <= events@.len(),
    ensures
        r@ == events@.subrange(start as int, events@.len() as int),
{
    let mut r: Vec<SerializedEvent> = Vec::new();
    let mut i: usize = start;
    while i < events.len()
        invariant
            start <= i <= events@.len(),
            r@ == events@.subrange(start as int, i as int),
        decreases events@.len() - i,
    {
        r.push(copy_event(&events[i]));
        i = i + 1;
        assert(r@ =~= events@.subrange(start as int, i as int));
    }
    r
}

impl EventStream {
    pub open spec fn wf(&self) -> bool {
        stream_wf(self@)
    }

    /// A stream that was never written.
    pub fn new() -> (r: EventStream)
        ensures
            r.wf(),
            r@.0 == Seq::<SerializedEvent>::empty(),
            r@.1 is None,
    {
        EventStream { events: Vec::new(), snapshot: None }
    }

    /// The stored version: the sequence number of the latest event, 0 if none.
    pub fn version(&self) -> (r: u64)
        requires
            self.wf(),
        ensures
            r == self@.0.len(),
    {
        proof {
            if self@.0.len() > 0 {
                assert(self@.0[self@.0.len() - 1].sequence == self@.0.len());
            }
        }
        if self.events.len() == 0 {
            0
        } else {
            self.events[self.events.len() - 1].sequence
        }
    }

    /// Commits `new_events` as one unit, numbered from `expected_version + 1`.
    /// Where the stored version is not `expected_version` a non-empty batch
    /// would collide with, or leave a gap after, what is committed: it is
    /// refused whole with `OptimisticLock` and nothing is written.
    pub fn append(&mut self, expected_version: u64, new_events: Vec<EventData>) -> (r: Result<(), MysqlAggregateError>)
        requires
            old(self).wf(),
            old(self)@.0.len() + new_events@.len() <= u64::MAX,
        ensures
            final(self).wf(),
            r is Ok <==> append_accepted(old(self)@.0, expected_version, new_events@),
            final(self)@.0 == after_append(old(self)@.0, expected_version, new_events@),
            final(self)@.1 == old(self)@.1,
            r matches Err(e) ==> e is OptimisticLock,
    {
        if new_events.len() == 0 {
            assert(self.events@ + stamped(new_events@, expected_version as nat) =~= self.events@);
            return Ok(());
        }
        if self.version() != expected_version {
            return Err(MysqlAggregateError::OptimisticLock);
        }
        let ghost old_events = self.events@;
        let mut j: usize = 0;
        while j < new_events.len()
            invariant
                old_events.len() == expected_version,
                expected_version + new_events@.len() <= u64::MAX,
                j <= new_events@.len(),
                self.snapshot == old(self).snapshot,
                self.events@ == old_events + stamped(new_events@, expected_version as nat).take(j as int),
            decreases new_events@.len() - j,
        {
            let e = &new_events[j];
            self.events.push(SerializedEvent {
                sequence: expected_version + 1 + j as u64,
                event_type: e.event_type.clone(),
                payload: e.payload.clone(),
                metadata: e.metadata.clone(),
            });
            j = j + 1;
            assert(self.events@ =~= old_events + stamped(new_events@, expected_version as nat).take(j as int));
        }
        assert(stamped(new_events@, expected_version as nat).take(j as int) =~= stamped(new_events@, expected_version as nat));
        Ok(())
    }

    /// All committed events in sequence order; empty if none.
    pub fn load(&self) -> (r: Vec<SerializedEvent>)
        ensures
            r@ == self@.0,
    {
        let r = copy_from(&self.events, 0);
        assert(self.events@.subrange(0, self.events@.len() as int) =~= self.events@);
        r
    }

    /// Replaces the current snapshot with the state as of event `sequence`,
    /// which must already be committed.
    pub fn save_snapshot(&mut self, sequence: u64, state: String)
        requires
            old(self).wf(),
            sequence <= old(self)@.0.len(),
        ensures
            final(self).wf(),
            final(self)@ == (old(self)@.0, Some(Snapshot { sequence, state })),
    {
        self.snapshot = Some(Snapshot { sequence, state });
    }

    /// The current snapshot, if any, and the events committed after it.
    pub fn load_from_snapshot(&self) -> (r: (Option<Snapshot>, Vec<SerializedEvent>))
        requires
            self.wf(),
        ensures
            (r.0, r.1@) == from_snapshot(self@),
    {
        let n: usize = self.events.len();
        let start: usize = match &self.snapshot {
            Some(snap) => {
                assert(snap.sequence <= n);
                snap.sequence as usize
            },
            None => 0,
        };
        (copy_snapshot(&self.snapshot), copy_from(&self.events, start))
    }
}

/// One aggregate instance's stream in an event store.
struct InstanceStream {
    aggregate_id: String,
    stream: EventStream,
}

/// No two entries are for the same aggregate instance.
spec fn instance_ids_unique(v: Seq<InstanceStream>) -> bool {
    forall|i: int, j: int|
        0 <= i < v.len() && 0 <= j < v.len() && i != j ==> v[i].aggregate_id@ != v[j].aggregate_id@
}

/// The streams by aggregate instance id.
spec fn streams(v: Seq<InstanceStream>) -> Map<Seq<char>, StreamModel> {
    Map::new(
        |k: Seq<char>| exists|i: int| 0 <= i < v.len() && v[i].aggregate_id@ == k,
        |k: Seq<char>|
            {
                let i = choose|i: int| 0 <= i < v.len() && v[i].aggregate_id@ == k;
                v[i].stream@
            },
    )
}

/// The stream of instance `id`; empty where it was never written.
pub open spec fn stream_of(m: Map<Seq<char>, StreamModel>, id: Seq<char>) -> StreamModel {
    if m.contains_key(id) {
        m[id]
    } else {
        (Seq::empty(), None)
    }
}

proof fn lemma_stream_at(v: Seq<InstanceStream>, i: int)
    requires
        instance_ids_unique(v),
        0 <= i < v.len(),
    ensures
        stream_of(streams(v), v[i].aggregate_id@) == v[i].stream@,
{
    let k = v[i].aggregate_id@;
    assert(streams(v).contains_key(k));
    let j = choose|j: int| 0 <= j < v.len() && v[j].aggregate_id@ == k;
    assert(j == i);
}

proof fn lemma_stream_absent(v: Seq<InstanceStream>, k: Seq<char>)
    requires
        forall|i: int| 0 <= i < v.len() ==> v[i].aggregate_id@ != k,
    ensures
        stream_of(streams(v), k) == (Seq::<SerializedEvent>::empty(), None::<Snapshot>),
{
}

/// Replacing entry `i` by one for the same instance, or adding an entry for
/// a new instance, leaves the streams of all other instances as they were.
proof fn lemma_others_kept(old_v: Seq<InstanceStream>, new_v: Seq<InstanceStream>, id: Seq<char>)
    requires
        instance_ids_unique(old_v),
        instance_ids_unique(new_v),
        old_v.len() <= new_v.len() <= old_v.len() + 1,
        forall|j: int| 0 <= j < old_v.len() && old_v[j].aggregate_id@ != id ==> new_v[j] == old_v[j],
        forall|j: int| 0 <= j < old_v.len() ==> new_v[j].aggregate_id@ == old_v[j].aggregate_id@,
        new_v.len() > old_v.len() ==> new_v[old_v.len() as int].aggregate_id@ == id,
    ensures
        forall|k: Seq<char>| k != id ==> stream_of(streams(new_v), k) == stream_of(streams(old_v), k),
{
    assert forall|k: Seq<char>| k != id implies stream_of(streams(new_v), k) == stream_of(streams(old_v), k) by {
        if streams(old_v).contains_key(k) {
            let j = choose|j: int| 0 <= j < old_v.len() && old_v[j].aggregate_id@ == k;
            lemma_stream_at(old_v, j);
            lemma_stream_at(new_v, j);
        } else {
            assert forall|j: int| 0 <= j < old_v.len() implies old_v[j].aggregate_id@ != k by {
                assert(!(0 <= j < old_v.len() && old_v[j].aggregate_id@ == k));
            }
            lemma_stream_absent(old_v, k);
            assert forall|j: int| 0 <= j < new_v.len() implies new_v[j].aggregate_id@ != k by {
                if j < old_v.len() {
                    assert(new_v[j].aggregate_id@ == old_v[j].aggregate_id@);
                }
            }
            lemma_stream_absent(new_v, k);
        }
    }
}

/// The event streams and snapshots of all instances of one aggregate type.
pub struct EventStore {
    instances: Vec<InstanceStream>,
}

impl View for EventStore {
    type V = Map<Seq<char>, StreamModel>;

    closed spec fn view(&self) -> Map<Seq<char>, StreamModel> {
        streams(self.instances@)
    }
}

impl EventStore {
    pub closed spec fn wf(&self) -> bool {
        &&& instance_ids_unique(self.instances@)
        &&& forall|i: int| 0 <= i < self.instances@.len() ==> #[trigger] self.instances@[i].stream.wf()
    }

    /// A store in which no instance was ever written.
    pub fn new() -> (r: EventStore)
        ensures
            r.wf(),
            forall|k: Seq<char>| #[trigger] stream_of(r@, k) == (Seq::<SerializedEvent>::empty(), None::<Snapshot>),
    {
        EventStore { instances: Vec::new() }
    }

    fn find(&self, id: &str) -> (r: Option<usize>)
        ensures
            r matches Some(i) ==> i < self.instances@.len() && self.instances@[i as int].aggregate_id@ == id@,
            r is None ==> forall|i: int|
                0 <= i < self.instances@.len() ==> self.instances@[i].aggregate_id@ != id@,
    {
        let mut i: usize = 0;
        while i < self.instances.len()
            invariant
                i <= self.instances@.len(),
                forall|j: int| 0 <= j < i ==> self.instances@[j].aggregate_id@ != id@,
            decreases self.instances@.len() - i,
        {
            if self.instances[i].aggregate_id == String::from_str(id) {
                return Some(i);
            }
            i = i + 1;
        }
        None
    }

    /// The entry of instance `id`, added empty where there is none.
    fn entry_index(&mut self, id: &str) -> (r: usize)
        requires
            old(self).wf(),
        ensures
            final(self).wf(),
            r < final(self).instances@.len(),
            final(self).instances@[r as int].aggregate_id@ == id@,
            forall|k: Seq<char>| #[trigger] stream_of(final(self)@, k) == stream_of(old(self)@, k),
    {
        match self.find(id) {
            Some(i) => i,
            None => {
                let ghost old_v = self.instances@;
                proof {
                    lemma_stream_absent(old_v, id@);
                }
                self.instances.push(InstanceStream { aggregate_id: String::from_str(id), stream: EventStream::new() });
                proof {
                    let v = self.instances@;
                    lemma_others_kept(old_v, v, id@);
                    lemma_stream_at(v, old_v.len() as int);
                    assert(v[old_v.len() as int].stream@ =~= (Seq::<SerializedEvent>::empty(), None::<Snapshot>));
                }
                self.instances.len() - 1
            },
        }
    }

    /// Commits `new_events` to the stream of `aggregate_id` as one unit,
    /// numbered from `expected_version + 1`, or refuses the whole batch with
    /// `OptimisticLock`; no other instance's stream changes.
    pub fn append(&mut self, aggregate_id: &str, expected_version: u64, new_events: Vec<EventData>) -> (r: Result<(), MysqlAggregateError>)
        requires
            old(self).wf(),
            stream_of(old(self)@, aggregate_id@).0.len() + new_events@.len() <= u64::MAX,
        ensures
            final(self).wf(),
            r is Ok <==> append_accepted(stream_of(old(self)@, aggregate_id@).0, expected_version, new_events@),
            stream_of(final(self)@, aggregate_id@) == (
                after_append(stream_of(old(self)@, aggregate_id@).0, expected_version, new_events@),
                stream_of(old(self)@, aggregate_id@).1,
            ),
            forall|k: Seq<char>| k != aggregate_id@ ==> #[trigger] stream_of(final(self)@, k) == stream_of(old(self)@, k),
            r matches Err(e) ==> e is OptimisticLock,
    {
        let ghost old_map = self@;
        let i = self.entry_index(aggregate_id);
        let ghost mid_v = self.instances@;
        proof {
            assert(stream_of(self@, aggregate_id@) == stream_of(old_map, aggregate_id@));
            lemma_stream_at(mid_v, i as int);
            assert(mid_v[i as int].stream.wf());
        }
        let mut entry = self.instances.remove(i);
        let r = entry.stream.append(expected_version, new_events);
        self.instances.insert(i, entry);
        proof {
            let v = self.instances@;
            assert(v =~= mid_v.update(i as int, entry));
            assert forall|a: int| 0 <= a < v.len() implies #[trigger] v[a].stream.wf() by {
                if a != i {
                    assert(v[a] == mid_v[a]);
                }
            }
            lemma_others_kept(mid_v, v, aggregate_id@);
            lemma_stream_at(v, i as int);
        }
        r
    }

    /// All committed events of `aggregate_id` in sequence order; empty if none.
    pub fn load(&self, aggregate_id: &str) -> (r: Vec<SerializedEvent>)
        requires
            self.wf(),
        ensures
            r@ == stream_of(self@, aggregate_id@).0,
    {
        match self.find(aggregate_id) {
            Some(i) => {
                proof {
                    lemma_stream_at(self.instances@, i as int);
                }
                self.instances[i].stream.load()
            },
            None => {
                proof {
                    lemma_stream_absent(self.instances@, aggregate_id@);
                }
                Vec::new()
            },
        }
    }

    /// Replaces the snapshot of `aggregate_id` with the state as of event
    /// `sequence`, which must already be committed.
    pub fn save_snapshot(&mut self, aggregate_id: &str, sequence: u64, state: String)
        requires
            old(self).wf(),
            sequence <= stream_of(old(self)@, aggregate_id@).0.len(),
        ensures
            final(self).wf(),
            stream_of(final(self)@, aggregate_id@) == (
                stream_of(old(self)@, aggregate_id@).0,
                Some(Snapshot { sequence, state }),
            ),
            forall|k: Seq<char>| k != aggregate_id@ ==> #[trigger] stream_of(final(self)@, k) == stream_of(old(self)@, k),
    {
        let ghost old_map = self@;
        let i = self.entry_index(aggregate_id);
        let ghost mid_v = self.instances@;
        proof {
            assert(stream_of(self@, aggregate_id@) == stream_of(old_map, aggregate_id@));
            lemma_stream_at(mid_v, i as int);
            assert(mid_v[i as int].stream.wf());
        }
        let mut entry = self.instances.remove(i);
        entry.stream.save_snapshot(sequence, state);
        self.instances.insert(i, entry);
        proof {
            let v = self.instances@;
            assert(v =~= mid_v.update(i as int, entry));
            assert forall|a: int| 0 <= a < v.len() implies #[trigger] v[a].stream.wf() by {
                if a != i {
                    assert(v[a] == mid_v[a]);
                }
            }
            lemma_others_kept(mid_v, v, aggregate_id@);
            lemma_stream_at(v, i as int);
        }
    }

    /// The snapshot of `aggregate_id`, if any, and the events committed after it.
    pub fn load_from_snapshot(&self, aggregate_id: &str) -> (r: (Option<Snapshot>, Vec<SerializedEvent>))
        requires
            self.wf(),
        ensures
            (r.0, r.1@) == from_snapshot(stream_of(self@, aggregate_id@)),
    {
        match self.find(aggregate_id) {
            Some(i) => {
                proof {
                    lemma_stream_at(self.instances@, i as int);
                }
                self.instances[i].stream.load_from_snapshot()
            },
            None => {
                proof {
                    lemma_stream_absent(self.instances@, aggregate_id@);
                    assert(Seq::<SerializedEvent>::empty().subrange(0, 0) =~= Seq::<SerializedEvent>::empty());
                }
                (None, Vec::new())
            },
        }
    }
}

/// An append computed against the stored version is accepted, and a load
/// then returns the earlier events followed by the new ones, numbered on
/// without a gap.
pub proof fn lemma_append_at_current_version(events: Seq<SerializedEvent>, v: u64, batch: Seq<EventData>)
    requires
        contiguous(events),
        events.len() == v,
        v + batch.len() <= u64::MAX,
    ensures
        append_accepted(events, v, batch),
        after_append(events, v, batch) == events + stamped(batch, v as nat),
        contiguous(after_append(events, v, batch)),
{
    let r = after_append(events, v, batch);
    assert forall|i: int| 0 <= i < r.len() implies #[trigger] r[i].sequence == i + 1 by {
        if i >= events.len() {
            assert(r[i] == stamped(batch, v as nat)[i - events.len()]);
        }
    }
}

/// Two non-empty appends computed against the same version: the one
/// committed first is accepted, the other is refused, and none of the
/// refused batch is in the stream.
pub proof fn lemma_concurrent_appends(events: Seq<SerializedEvent>, v: u64, first: Seq<EventData>, second: Seq<EventData>)
    requires
        contiguous(events),
        events.len() == v,
        v + first.len() <= u64::MAX,
        first.len() > 0,
        second.len() > 0,
    ensures
        append_accepted(events, v, first),
        !append_accepted(after_append(events, v, first), v, second),
        after_append(after_append(events, v, first), v, second) == events + stamped(first, v as nat),
{
}

/// After a snapshot at the stream's version `n` and an append of events
/// `n+1..n+k`, a load from the snapshot returns that snapshot and exactly
/// those events.
pub proof fn lemma_snapshot_then_append(s: StreamModel, n: u64, state: String, batch: Seq<EventData>)
    requires
        stream_wf(s),
        s.0.len() == n,
        n + batch.len() <= u64::MAX,
    ensures
        from_snapshot((after_append(s.0, n, batch), Some(Snapshot { sequence: n, state }))) == (
            Some(Snapshot { sequence: n, state }),
            stamped(batch, n as nat),
        ),
{
    let evs = after_append(s.0, n, batch);
    assert(evs.subrange(n as int, evs.len() as int) =~= stamped(batch, n as nat));
}

} // verus!
