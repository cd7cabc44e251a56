//! Who sees a PTY session's output, and which connections are live.
//!
//! Output capture never writes to a viewer's socket. It offers each chunk to the
//! viewer's bounded [`ViewerQueue`], which the viewer's own sender drains; a viewer
//! that falls a full budget behind is disconnected instead of stalling capture
//! (and, through capture, the child).

use crate::model::pty_control::HolderId;
use std::collections::VecDeque;
use vstd::prelude::*;
use vstd::slice::slice_to_vec;

verus! {

/// Queued output bytes one viewer may fall behind before it is disconnected.
pub const VIEWER_QUEUE_BYTES: usize = 8_388_608;

/// The bytes in chunks together.
pub open spec fn chunk_bytes(chunks: Seq<Seq<u8>>) -> nat
    decreases chunks.len(),
{
    if chunks.len() == 0 {
        0
    } else {
        chunk_bytes(chunks.drop_last()) + chunks.last().len()
    }
}

pub(crate) proof fn lemma_chunk_pop(chunks: Seq<Seq<u8>>)
    requires
        chunks.len() > 0,
    ensures
        chunk_bytes(chunks) == chunks[0].len() + chunk_bytes(chunks.skip(1)),
    decreases chunks.len(),
{
    if chunks.len() == 1 {
        assert(chunks.drop_last() =~= Seq::empty());
        assert(chunks.skip(1) =~= Seq::empty());
    } else {
        lemma_chunk_pop(chunks.drop_last());
        assert(chunks.drop_last().skip(1) =~= chunks.skip(1).drop_last());
    }
}

pub open spec fn chunk_models(chunks: Seq<Vec<u8>>) -> Seq<Seq<u8>> {
    Seq::new(chunks.len(), |i: int| chunks[i]@)
}

/// What waits for a viewer.
pub struct QueueModel {
    pub chunks: Seq<Seq<u8>>,
    pub closed: bool,
}

impl QueueModel {
    /// Never more than the budget, nothing at all once it overflowed.
    pub open spec fn wf(self) -> bool {
        chunk_bytes(self.chunks) <= VIEWER_QUEUE_BYTES
    }

    /// Behind the offer of a chunk, and whether it was taken.
    pub open spec fn offered(self, chunk: Seq<u8>) -> (QueueModel, bool) {
        if self.closed {
            (self, false)
        } else if chunk_bytes(self.chunks) + chunk.len() > VIEWER_QUEUE_BYTES {
            (QueueModel { chunks: Seq::empty(), closed: true }, false)
        } else {
            (QueueModel { chunks: self.chunks.push(chunk), ..self }, true)
        }
    }
}

/// What the sender finds.
#[derive(Clone, Debug, PartialEq, Eq)]
pub enum NextChunk {
    Chunk(Vec<u8>),
    /// Nothing is queued yet.
    Wait,
    Closed,
}

/// A byte-bounded queue of output chunks for one viewer.
#[derive(Debug)]
pub struct ViewerQueue {
    chunks: VecDeque<Vec<u8>>,
    bytes: usize,
    closed: bool,
}

impl View for ViewerQueue {
    type V = QueueModel;

    closed spec fn view(&self) -> QueueModel {
        QueueModel { chunks: chunk_models(self.chunks@), closed: self.closed }
    }
}

impl ViewerQueue {
    pub closed spec fn wf(&self) -> bool {
        self@.wf() && self.bytes == chunk_bytes(self@.chunks)
    }

    pub fn new() -> (queue: ViewerQueue)
        ensures
            queue.wf(),
            queue@ == (QueueModel { chunks: Seq::empty(), closed: false }),
    {
        let queue = ViewerQueue { chunks: VecDeque::new(), bytes: 0, closed: false };
        assert(queue@.chunks =~= Seq::empty());
        queue
    }

    /// Queues `chunk` without blocking. `false` means the viewer is closed or has
    /// just overflowed its budget; either way it must be dropped.
    pub fn offer(&mut self, chunk: &[u8]) -> (taken: bool)
        requires
            old(self).wf(),
        ensures
            final(self).wf(),
            (final(self)@, taken) == old(self)@.offered(chunk@),
    {
        if self.closed {
            return false;
        }
        let ghost before = self@.chunks;
        if chunk.len() > VIEWER_QUEUE_BYTES - self.bytes {
            self.closed = true;
            self.chunks.clear();
            self.bytes = 0;
            assert(self@.chunks =~= Seq::empty());
            return false;
        }
        self.bytes = self.bytes + chunk.len();
        self.chunks.push_back(slice_to_vec(chunk));
        proof {
            assert(self@.chunks =~= before.push(chunk@));
            assert(self@.chunks.drop_last() =~= before);
        }
        true
    }

    /// Takes the next chunk.
    pub fn next(&mut self) -> (next: NextChunk)
        requires
            old(self).wf(),
        ensures
            final(self).wf(),
            if old(self)@.closed {
                next is Closed && final(self)@ == old(self)@
            } else if old(self)@.chunks.len() == 0 {
                next is Wait && final(self)@ == old(self)@
            } else {
                (next matches NextChunk::Chunk(chunk) && chunk@ == old(self)@.chunks[0]) && final(
                    self)@ == (QueueModel { chunks: old(self)@.chunks.skip(1), ..old(self)@ })
            },
    {
        if self.closed {
            return NextChunk::Closed;
        }
        let ghost before = self@.chunks;
        if self.chunks.len() == 0 {
            return NextChunk::Wait;
        }
        let chunk = self.chunks.pop_front().unwrap();
        proof {
            assert(before[0] == chunk@);
            lemma_chunk_pop(before);
            assert(self@.chunks =~= before.skip(1));
        }
        self.bytes = self.bytes - chunk.len();
        NextChunk::Chunk(chunk)
    }

    pub fn close(&mut self)
        requires
            old(self).wf(),
        ensures
            final(self).wf(),
            final(self)@ == (QueueModel { closed: true, ..old(self)@ }),
    {
        self.closed = true;
    }
}

/// A viewer that falls a full budget behind is closed for good: nothing is queued
/// for it, then or later.
pub proof fn law_overflow_closes(q: QueueModel, chunk: Seq<u8>, later: Seq<u8>)
    requires
        !q.closed,
        chunk_bytes(q.chunks) + chunk.len() > VIEWER_QUEUE_BYTES,
    ensures
        q.offered(chunk) == (QueueModel { chunks: Seq::<Seq<u8>>::empty(), closed: true }, false),
        q.offered(chunk).0.offered(later) == (q.offered(chunk).0, false),
{
}

// Live connections.

/// The live connections by controller, and whether the run has ended.
pub struct RegistryModel<E> {
    pub live: Seq<(HolderId, E)>,
    pub closed: bool,
}

impl<E> RegistryModel<E> {
    /// No controller has two connections.
    pub open spec fn wf(self) -> bool {
        forall|i: int, j: int|
            0 <= i < j < self.live.len() ==> (#[trigger] self.live[i]).0 != (
            #[trigger] self.live[j]).0
    }

    pub open spec fn contains(self, holder: HolderId) -> bool {
        exists|i: int| 0 <= i < self.live.len() && (#[trigger] self.live[i]).0 == holder
    }

    /// The connection of `holder`, if it is live.
    pub open spec fn entry(self, holder: HolderId) -> Option<E> {
        if self.contains(holder) {
            let i = choose|i: int| 0 <= i < self.live.len() && (#[trigger] self.live[i]).0 == holder;
            Some(self.live[i].1)
        } else {
            None
        }
    }
}

/// Live attach connections by controller identity, so a takeover can retire
/// exactly the superseded connection.
#[derive(Debug)]
pub struct ConnectionRegistry<E> {
    live: Vec<(HolderId, E)>,
    closed: bool,
}

impl<E> View for ConnectionRegistry<E> {
    type V = RegistryModel<E>;

    closed spec fn view(&self) -> RegistryModel<E> {
        RegistryModel { live: self.live@, closed: self.closed }
    }
}

impl<E> ConnectionRegistry<E> {
    pub open spec fn wf(&self) -> bool {
        self@.wf()
    }

    pub fn new() -> (registry: ConnectionRegistry<E>)
        ensures
            registry.wf(),
            registry@ == (RegistryModel::<E> { live: Seq::empty(), closed: false }),
    {
        ConnectionRegistry { live: Vec::new(), closed: false }
    }

    fn position(&self, holder: HolderId) -> (at: Option<usize>)
        ensures
            match at {
                Some(i) => i < self@.live.len() && self@.live[i as int].0 == holder,
                None => !self@.contains(holder),
            },
    {
        let mut i: usize = 0;
        while i < self.live.len()
            invariant
                i <= self.live@.len(),
                self@.live == self.live@,
                forall|j: int| 0 <= j < i ==> (#[trigger] self@.live[j]).0 != holder,
            decreases self.live@.len() - i,
        {
            if self.live[i].0 == holder {
                return Some(i);
            }
            i = i + 1;
        }
        None
    }

    /// Registers a connection, in place of an earlier one of the same controller.
    /// Refused, handing `entry` back, once the run has ended: the caller must
    /// reject the connection.
    pub fn insert(&mut self, holder: HolderId, entry: E) -> (inserted: Result<(), E>)
        requires
            old(self).wf(),
        ensures
            final(self).wf(),
            if old(self)@.closed {
                inserted == Err::<(), E>(entry) && final(self)@ == old(self)@
            } else {
                &&& inserted is Ok
                &&& !final(self)@.closed
                &&& final(self)@.entry(holder) == Some(entry)
                &&& forall|other: HolderId|
                    other != holder ==> final(self)@.entry(other) == #[trigger] old(self)@.entry(
                        other,
                    )
            },
    {
        if self.closed {
            return Err(entry);
        }
        self.remove(holder);
        let ghost before = self@;
        self.live.push((holder, entry));
        proof {
            let after = self@;
            assert(after.live[before.live.len() as int] == (holder, entry));
            assert(after.contains(holder));
            assert forall|other: HolderId| other != holder implies after.entry(other)
                == #[trigger] before.entry(other) by {
                lemma_entry_prefix(before, after, other);
            }
        }
        Ok(())
    }

    /// Forgets the connection of `holder` and hands it out.
    pub fn remove(&mut self, holder: HolderId) -> (entry: Option<E>)
        requires
            old(self).wf(),
        ensures
            final(self).wf(),
            final(self)@.closed == old(self)@.closed,
            entry == old(self)@.entry(holder),
            !final(self)@.contains(holder),
            forall|other: HolderId|
                other != holder ==> final(self)@.entry(other) == #[trigger] old(self)@.entry(
                    other,
                ),
    {
        let ghost before = self@;
        match self.position(holder) {
            None => None,
            Some(i) => {
                let (_, entry) = self.live.remove(i);
                proof {
                    lemma_removed(before, self@, i as int, holder);
                }
                Some(entry)
            },
        }
    }

    /// Whether the connection of `holder` is live.
    pub fn contains(&self, holder: HolderId) -> (live: bool)
        ensures
            live == self@.contains(holder),
    {
        self.position(holder).is_some()
    }

    /// Refuses further registrations and hands every live connection out, to be
    /// shut down, so that each client sees end of stream.
    pub fn close(&mut self) -> (entries: Vec<(HolderId, E)>)
        ensures
            entries@ == old(self)@.live,
            final(self)@ == (RegistryModel::<E> { live: Seq::empty(), closed: true }),
    {
        self.closed = true;
        let mut entries: Vec<(HolderId, E)> = Vec::new();
        entries.append(&mut self.live);
        assert(entries@ =~= old(self)@.live);
        assert(self.live@ =~= Seq::empty());
        entries
    }
}

proof fn lemma_entry_unique<E>(r: RegistryModel<E>, i: int, holder: HolderId)
    requires
        r.wf(),
        0 <= i < r.live.len(),
        r.live[i].0 == holder,
    ensures
        r.entry(holder) == Some(r.live[i].1),
{
    assert(r.contains(holder));
    let j = choose|j: int| 0 <= j < r.live.len() && (#[trigger] r.live[j]).0 == holder;
    assert(j == i) by {
        if j < i {
            assert(r.live[j].0 != r.live[i].0);
        }
        if i < j {
            assert(r.live[i].0 != r.live[j].0);
        }
    }
}

proof fn lemma_entry_prefix<E>(before: RegistryModel<E>, after: RegistryModel<E>, other: HolderId)
    requires
        before.wf(),
        after.wf(),
        after.live.len() == before.live.len() + 1,
        forall|i: int| 0 <= i < before.live.len() ==> after.live[i] == before.live[i],
        after.live.last().0 != other,
    ensures
        after.entry(other) == before.entry(other),
{
    if before.contains(other) {
        let i = choose|i: int| 0 <= i < before.live.len() && (#[trigger] before.live[i]).0 == other;
        lemma_entry_unique(before, i, other);
        assert(after.live[i].0 == other);
        lemma_entry_unique(after, i, other);
    } else if after.contains(other) {
        let i = choose|i: int| 0 <= i < after.live.len() && (#[trigger] after.live[i]).0 == other;
        assert(before.live[i].0 == other);
    }
}

proof fn lemma_removed<E>(
    before: RegistryModel<E>,
    after: RegistryModel<E>,
    i: int,
    holder: HolderId,
)
    requires
        before.wf(),
        0 <= i < before.live.len(),
        before.live[i].0 == holder,
        after.live == before.live.remove(i),
    ensures
        after.wf(),
        !after.contains(holder),
        before.entry(holder) == Some(before.live[i].1),
        forall|other: HolderId|
            other != holder ==> after.entry(other) == #[trigger] before.entry(other),
{
    lemma_entry_unique(before, i, holder);
    assert forall|j: int| 0 <= j < after.live.len() implies #[trigger] after.live[j]
        == before.live[if j < i {
        j
    } else {
        j + 1
    }] by {}
    assert forall|j: int, k: int| 0 <= j < k < after.live.len() implies (
    #[trigger] after.live[j]).0 != (#[trigger] after.live[k]).0 by {
        let jj = if j < i {
            j
        } else {
            j + 1
        };
        let kk = if k < i {
            k
        } else {
            k + 1
        };
        assert(before.live[jj].0 != before.live[kk].0);
    }
    if after.contains(holder) {
        let j = choose|j: int| 0 <= j < after.live.len() && (#[trigger] after.live[j]).0 == holder;
        let jj = if j < i {
            j
        } else {
            j + 1
        };
        assert(before.live[jj].0 == holder);
        if jj < i {
            assert(before.live[jj].0 != before.live[i].0);
        } else {
            assert(before.live[i].0 != before.live[jj].0);
        }
    }
    assert forall|other: HolderId| other != holder implies after.entry(other)
        == #[trigger] before.entry(other) by {
        if before.contains(other) {
            let j = choose|j: int|
                0 <= j < before.live.len() && (#[trigger] before.live[j]).0 == other;
            lemma_entry_unique(before, j, other);
            let jj = if j < i {
                j
            } else {
                j - 1
            };
            assert(after.live[jj] == before.live[j]);
            lemma_entry_unique(after, jj, other);
        } else if after.contains(other) {
            let j = choose|j: int|
                0 <= j < after.live.len() && (#[trigger] after.live[j]).0 == other;
            let jj = if j < i {
                j
            } else {
                j + 1
            };
            assert(before.live[jj].0 == other);
        }
    }
}

/// The viewer that PTY output is teed to, tagged with its controller identity so
/// that a stale connection can never clear or replace its successor's viewer.
#[derive(Debug)]
pub struct AttachSink<V> {
    pub viewer: Option<(HolderId, V)>,
}

impl<V> AttachSink<V> {
    /// Installs the viewer of `holder` unless its connection has been retired:
    /// retirement removes the connection from the registry before the successor
    /// is even granted control, so a retired connection can never install its
    /// viewer over its successor's.
    pub fn install<E>(
        &mut self,
        registry: &ConnectionRegistry<E>,
        holder: HolderId,
        viewer: V,
    ) -> (installed: bool)
        ensures
            installed == registry@.contains(holder),
            final(self).viewer == (if installed {
                Some((holder, viewer))
            } else {
                old(self).viewer
            }),
    {
        if registry.contains(holder) {
            self.viewer = Some((holder, viewer));
            true
        } else {
            false
        }
    }

    /// Drops the viewer of `holder`, if that is the one, and hands it out.
    pub fn clear(&mut self, holder: HolderId) -> (viewer: Option<V>)
        ensures
            match old(self).viewer {
                Some((h, v)) if h == holder => viewer == Some(v) && final(self).viewer is None,
                _ => viewer is None && final(self).viewer == old(self).viewer,
            },
    {
        match self.viewer.take() {
            Some((h, v)) => if h == holder {
                Some(v)
            } else {
                self.viewer = Some((h, v));
                None
            },
            None => None,
        }
    }
}

// What each operation does, in terms of what it was given and what it gave back.

/// A chunk is queued behind those that wait, as it came, while they are no more than eight
/// mebibytes with it. A viewer that falls further behind is closed, and loses what waits;
/// nothing is queued for one that is closed.
pub proof fn law_viewer_queue_is_bounded(
    queue: &mut ViewerQueue,
    chunk: &[u8],
    taken: bool,
    fresh: ViewerQueue,
)
    requires
        old(queue).wf(),
        call_ensures(ViewerQueue::offer, (queue, chunk), taken),
        call_ensures(ViewerQueue::new, (), fresh),
    ensures
        taken <==> !old(queue)@.closed && chunk_bytes(old(queue)@.chunks) + chunk@.len()
            <= 8_388_608,
        taken ==> final(queue)@.chunks == old(queue)@.chunks.push(chunk@) && !final(queue)@.closed,
        !taken ==> final(queue)@.closed,
        !taken && old(queue)@.closed ==> final(queue)@ == old(queue)@,
        !taken && !old(queue)@.closed ==> final(queue)@.chunks.len() == 0,
        fresh@.chunks.len() == 0 && !fresh@.closed,
{
}

/// What counts is every byte of every chunk.
pub proof fn law_every_queued_byte_counts(chunks: Seq<Seq<u8>>, chunk: Seq<u8>)
    ensures
        chunk_bytes(Seq::<Seq<u8>>::empty()) == 0,
        chunk_bytes(chunks.push(chunk)) == chunk_bytes(chunks) + chunk.len(),
{
    assert(chunks.push(chunk).drop_last() =~= chunks);
}

/// Chunks are handed out in the order in which they came, each once; closing keeps what
/// waits, and hands nothing out any more.
pub proof fn law_viewer_queue_hands_out_in_order(
    queue: &mut ViewerQueue,
    next: NextChunk,
    closing: &mut ViewerQueue,
)
    requires
        old(queue).wf(),
        old(closing).wf(),
        call_ensures(ViewerQueue::next, (queue,), next),
        call_ensures(ViewerQueue::close, (closing,), ()),
    ensures
        next is Closed <==> old(queue)@.closed,
        next is Wait <==> !old(queue)@.closed && old(queue)@.chunks.len() == 0,
        next matches NextChunk::Chunk(chunk) ==> chunk@ == old(queue)@.chunks[0] && final(queue)@.chunks == old(queue)@.chunks.skip(1),
        !(next is Chunk) ==> final(queue)@ == old(queue)@,
        final(queue)@.closed == old(queue)@.closed,
        final(closing)@.closed,
        final(closing)@.chunks == old(closing)@.chunks,
{
}

/// A connection that is registered is the one that is found for its controller, and no
/// other controller's changes; once the run has ended it is handed back. One that is
/// removed is handed out, and not found any more. Closing hands every one out, and refuses
/// all that follow.
pub proof fn law_registry_keeps_one_connection_each<E>(
    inserting: &mut ConnectionRegistry<E>,
    removing: &mut ConnectionRegistry<E>,
    closing: &mut ConnectionRegistry<E>,
    registry: ConnectionRegistry<E>,
    holder: HolderId,
    entry: E,
    other: HolderId,
    inserted: Result<(), E>,
    removed: Option<E>,
    entries: Vec<(HolderId, E)>,
    live: bool,
)
    requires
        old(inserting).wf(),
        old(removing).wf(),
        call_ensures(ConnectionRegistry::<E>::insert, (inserting, holder, entry), inserted),
        call_ensures(ConnectionRegistry::<E>::remove, (removing, holder), removed),
        call_ensures(ConnectionRegistry::<E>::close, (closing,), entries),
        call_ensures(ConnectionRegistry::<E>::contains, (&registry, holder), live),
    ensures
        inserted is Ok <==> !old(inserting)@.closed,
        inserted is Ok ==> final(inserting)@.entry(holder) == Some(entry),
        inserted matches Err(back) ==> back == entry && final(inserting)@ == old(inserting)@,
        other != holder ==> final(inserting)@.entry(other) == old(inserting)@.entry(other),
        removed == old(removing)@.entry(holder),
        final(removing)@.entry(holder) is None,
        other != holder ==> final(removing)@.entry(other) == old(removing)@.entry(other),
        final(removing)@.closed == old(removing)@.closed,
        entries@ == old(closing)@.live,
        final(closing)@.closed && final(closing)@.live.len() == 0,
        live <==> registry@.entry(holder) is Some,
{
}

/// A viewer is installed exactly where its connection is still live, in place of any other;
/// it is cleared only by its own controller.
pub proof fn law_viewer_belongs_to_a_live_connection<V, E>(
    installing: &mut AttachSink<V>,
    registry: ConnectionRegistry<E>,
    holder: HolderId,
    viewer: V,
    live: bool,
    installed: bool,
    clearing: &mut AttachSink<V>,
    cleared: Option<V>,
)
    requires
        call_ensures(ConnectionRegistry::<E>::contains, (&registry, holder), live),
        call_ensures(AttachSink::<V>::install::<E>, (installing, &registry, holder, viewer), installed),
        call_ensures(AttachSink::<V>::clear, (clearing, holder), cleared),
    ensures
        installed <==> live,
        installed ==> final(installing).viewer == Some((holder, viewer)),
        !installed ==> final(installing).viewer == old(installing).viewer,
        cleared is Some <==> (old(clearing).viewer matches Some((h, _)) && h == holder),
        cleared is Some ==> cleared == Some((old(clearing).viewer->0).1) && final(clearing).viewer is None,
        cleared is None ==> final(clearing).viewer == old(clearing).viewer,
{
}

/// A new registry has no connection, and takes them.
pub proof fn law_new_registry_is_open<E>(registry: ConnectionRegistry<E>, holder: HolderId)
    requires
        call_ensures(ConnectionRegistry::<E>::new, (), registry),
    ensures
        registry@.entry(holder) is None,
        !registry@.closed,
{
}

} // verus!
